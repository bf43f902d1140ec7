//! Dwell events and their identifiers.
//!
//! An event is created once per qualifying (track, zone) transition and is
//! immutable afterwards; ownership moves to the dispatch stage and then to
//! each publisher. Event identifiers are random version-4 UUIDs held as their
//! 128-bit value; track identities (assigned by the external matcher) are
//! rendered into the event as the standard hyphenated UUID string.

use vstd::prelude::*;

use base64::Engine;

verus! {

/// A bounding box in frame-pixel coordinates.
#[derive(Clone, Copy, Debug, PartialEq, Eq, Structural)]
pub struct EventBBox {
    pub x: i32,
    pub y: i32,
    pub width: i32,
    pub height: i32,
}

/// A point of interest (an object's center) in frame-pixel coordinates.
#[derive(Clone, Copy, Debug, PartialEq, Eq, Structural)]
pub struct EventPOI {
    pub x: i32,
    pub y: i32,
}

/// Hexadecimal digit for a value in 0..16, lower case.
pub open spec fn hex_char(n: int) -> char {
    if n == 0 { '0' } else if n == 1 { '1' } else if n == 2 { '2' } else if n == 3 { '3' }
    else if n == 4 { '4' } else if n == 5 { '5' } else if n == 6 { '6' } else if n == 7 { '7' }
    else if n == 8 { '8' } else if n == 9 { '9' } else if n == 10 { 'a' } else if n == 11 { 'b' }
    else if n == 12 { 'c' } else if n == 13 { 'd' } else if n == 14 { 'e' } else { 'f' }
}

/// The i-th hexadecimal digit of a 128-bit value, counting from the most
/// significant (i in 0..32).
pub open spec fn nibble(v: u128, i: int) -> int {
    ((v >> ((124 - 4 * i) as u128)) & 0xf) as int
}

/// Index into the 32 hex digits for a position in the 36-character hyphenated
/// form, skipping the hyphens at positions 8, 13, 18 and 23.
pub open spec fn hyphenated_digit_index(j: int) -> int {
    if j < 8 { j } else if j < 13 { j - 1 } else if j < 18 { j - 2 }
    else if j < 23 { j - 3 } else { j - 4 }
}

pub open spec fn hyphenated_char(v: u128, j: int) -> char {
    if j == 8 || j == 13 || j == 18 || j == 23 {
        '-'
    } else {
        hex_char(nibble(v, hyphenated_digit_index(j)))
    }
}

/// The standard hyphenated lowercase UUID rendering of a 128-bit value:
/// 8-4-4-4-12 hex digits, most significant first.
pub open spec fn uuid_hyphenated(v: u128) -> Seq<char> {
    Seq::new(36, |j: int| hyphenated_char(v, j))
}

/// Relies on uuid::Uuid::new_v4 and Uuid::as_u128: a freshly drawn random
/// UUID, returned as its 128-bit big-endian value. Only the version and
/// variant bits that every version-4 UUID carries are promised; the rest is
/// random.
#[verifier::external_body]
pub(crate) fn new_event_id() -> (r: u128)
    ensures
        (r >> 76u128) & 0xf == 4,
        (r >> 62u128) & 3 == 2,
{
    uuid::Uuid::new_v4().as_u128()
}

/// Relies on uuid::Uuid::from_u128 and the Display impl of Uuid: the
/// hyphenated lowercase-hex form, a function of the 128-bit value alone.
#[verifier::external_body]
pub(crate) fn uuid_string(id: u128) -> (r: String)
    ensures
        r@ == uuid_hyphenated(id),
{
    uuid::Uuid::from_u128(id).to_string()
}

fn clone_bytes(src: &Vec<u8>) -> (r: Vec<u8>)
    ensures
        r@ == src@,
{
    let mut out: Vec<u8> = Vec::new();
    let mut i: usize = 0;
    while i < src.len()
        invariant
            i <= src.len(),
            out@ == src@.take(i as int),
        decreases src.len() - i,
    {
        out.push(src[i]);
        proof {
            assert(out@ =~= src@.take(i + 1 as int));
        }
        i = i + 1;
    }
    proof {
        assert(src@.take(src@.len() as int) =~= src@);
    }
    out
}

/// A zone-dwell event, created by the zone engine and immutable afterwards.
#[derive(Debug)]
pub struct EventInfo {
    pub id: u128,
    pub event_registered_at: i64,
    pub event_image: Option<Vec<u8>>,
    pub object_id: String,
    pub object_registered_at: i64,
    pub object_lifetime: i64,
    pub object_bbox: EventBBox,
    pub object_poi: EventPOI,
    pub object_classname: String,
    pub object_confidence: u32,
    pub zone_id: String,
    pub equipment_id: Option<String>,
}

impl EventInfo {
    /// Builds an event around the given observation data; the event id is a
    /// freshly drawn random UUID value.
    pub fn new(
        unix_tm: i64,
        frame: Option<&Vec<u8>>,
        object_id: String,
        object_registered_unix_tm: i64,
        object_lifetime: i64,
        object_bbox: EventBBox,
        object_poi: EventPOI,
        classname: String,
        confidence: u32,
        zone_id: String,
        equipment_id: Option<String>,
    ) -> (r: EventInfo)
        ensures
            r.event_registered_at == unix_tm,
            r.object_id == object_id,
            r.object_registered_at == object_registered_unix_tm,
            r.object_lifetime == object_lifetime,
            r.object_bbox == object_bbox,
            r.object_poi == object_poi,
            r.object_classname == classname,
            r.object_confidence == confidence,
            r.zone_id == zone_id,
            r.equipment_id == equipment_id,
            frame is Some ==> (r.event_image matches Some(img) && img@ == frame.unwrap()@),
            frame is None ==> r.event_image is None,
            (r.id >> 76u128) & 0xf == 4,
            (r.id >> 62u128) & 3 == 2,
    {
        let event_image = match frame {
            Some(buf) => Some(clone_bytes(buf)),
            None => None,
        };
        EventInfo {
            id: new_event_id(),
            event_registered_at: unix_tm,
            event_image,
            object_id,
            object_registered_at: object_registered_unix_tm,
            object_lifetime,
            object_bbox,
            object_poi,
            object_classname: classname,
            object_confidence: confidence,
            zone_id,
            equipment_id,
        }
    }

    pub fn get_id(&self) -> (r: u128)
        ensures
            r == self.id,
    {
        self.id
    }

    /// The snapshot image as publishers transport it: standard padded base64
    /// of the encoded image bytes, when a snapshot was attached.
    pub fn image_base64(&self) -> (r: Option<String>)
        ensures
            self.event_image matches Some(img) ==> (r matches Some(s) && s@ == base64_of(img@)
                && s@.len() == ((img@.len() + 2) / 3) * 4),
            self.event_image is None ==> r is None,
    {
        match &self.event_image {
            Some(img) => Some(bytes_as_base64(img)),
            None => None,
        }
    }
}

/// What the standard base64 encoding returns for a byte sequence; a function
/// of the bytes alone.
pub uninterp spec fn base64_of(bytes: Seq<u8>) -> Seq<char>;

/// Relies on base64's STANDARD engine: padded base64, four output characters
/// for every started group of three input bytes.
#[verifier::external_body]
fn bytes_as_base64(b: &Vec<u8>) -> (r: String)
    ensures
        r@ == base64_of(b@),
        r@.len() == ((b@.len() + 2) / 3) * 4,
{
    base64::engine::general_purpose::STANDARD.encode(b)
}

} // verus!
