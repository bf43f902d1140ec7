//! Event publishers: the publish error taxonomy and the pub/sub channel
//! publisher's connection setup.
//!
//! Building a connection is pure computation — assembling the connection URL
//! and normalizing the channel name — plus one call into the redis client's
//! URL parser; the actual network send happens outside this library, in the
//! dispatch stage that owns the connections.

use vstd::prelude::*;

use crate::strfmt::{dec_str_int, i64_to_string};

verus! {

#[derive(Debug)]
pub struct PublisherInternalError(pub String);

impl PublisherInternalError {
    pub fn message(&self) -> (r: String)
        ensures
            r@ == "PublisherInternalError: "@ + self.0@,
    {
        let mut s = "PublisherInternalError: ".to_owned();
        s.append(self.0.as_str());
        s
    }
}

/// The redis client's error type, opaque to the library.
#[verifier::external_type_specification]
#[verifier::external_body]
pub struct ExRedisError(redis::RedisError);

/// The redis client handle, opaque to the library.
#[verifier::external_type_specification]
#[verifier::external_body]
pub struct ExRedisClient(redis::Client);

#[derive(Debug)]
pub enum PublisherError {
    Er(PublisherInternalError),
    RedisErr(redis::RedisError),
}

impl From<PublisherInternalError> for PublisherError {
    fn from(e: PublisherInternalError) -> Self {
        PublisherError::Er(e)
    }
}

impl vstd::std_specs::convert::FromSpecImpl<PublisherInternalError> for PublisherError {
    open spec fn obeys_from_spec() -> bool {
        true
    }

    open spec fn from_spec(e: PublisherInternalError) -> Self {
        PublisherError::Er(e)
    }
}

impl From<redis::RedisError> for PublisherError {
    fn from(e: redis::RedisError) -> Self {
        PublisherError::RedisErr(e)
    }
}

impl vstd::std_specs::convert::FromSpecImpl<redis::RedisError> for PublisherError {
    open spec fn obeys_from_spec() -> bool {
        true
    }

    open spec fn from_spec(e: redis::RedisError) -> Self {
        PublisherError::RedisErr(e)
    }
}

/// The channel events are published on when the configuration leaves it
/// empty.
pub open spec fn spec_channel_name(s: Seq<char>) -> Seq<char> {
    if s.len() != 0 {
        s
    } else {
        "ROAD_ANOMALIES_EVENTS"@
    }
}

/// The configured channel name, or the default for an empty one.
pub fn channel_name_handler(s: String) -> (r: String)
    ensures
        r@ == spec_channel_name(s@),
{
    if s.unicode_len() != 0 {
        return s;
    }
    "ROAD_ANOMALIES_EVENTS".to_owned()
}

/// The connection URL for a host, port and database index, with optional
/// credentials before the host.
pub open spec fn spec_redis_url(
    credentials: Seq<char>,
    host: Seq<char>,
    port: int,
    db_index: int,
) -> Seq<char> {
    "redis://"@ + credentials + host + ":"@ + dec_str_int(port) + "/"@ + dec_str_int(db_index)
}

fn redis_url(credentials: &str, host: &str, port: i32, db_index: i32) -> (r: String)
    ensures
        r@ == spec_redis_url(credentials@, host@, port as int, db_index as int),
{
    let mut url = "redis://".to_owned();
    url.append(credentials);
    url.append(host);
    url.append(":");
    let port_str = i64_to_string(port as i64);
    url.append(port_str.as_str());
    url.append("/");
    let db_str = i64_to_string(db_index as i64);
    url.append(db_str.as_str());
    proof {
        reveal_strlit(":");
        reveal_strlit("/");
        assert(url@ =~= spec_redis_url(credentials@, host@, port as int, db_index as int));
    }
    url
}

/// Whether redis::Client::open accepts a connection URL; its parser decides
/// from the characters alone, without contacting any server.
pub uninterp spec fn url_parses(url: Seq<char>) -> bool;

/// Relies on redis::Client::open: it parses the URL into connection
/// parameters without contacting the server, returning the client handle
/// exactly when the URL is accepted, and the parse error otherwise.
#[verifier::external_body]
fn open_client(url: &str) -> (r: Result<redis::Client, redis::RedisError>)
    ensures
        r is Ok <==> url_parses(url@),
{
    redis::Client::open(url)
}

/// A pub/sub channel publisher: the client handle and the channel events are
/// published on.
pub struct RedisConnection {
    pub channel_name: String,
    pub client: redis::Client,
}

impl RedisConnection {
    /// Connection without credentials.
    pub fn new(host: String, port: i32, db_index: i32, channel_name: String) -> (r: Result<
        RedisConnection,
        redis::RedisError,
    >)
        ensures
            r is Ok <==> url_parses(
                spec_redis_url(""@, host@, port as int, db_index as int),
            ),
            r matches Ok(c) ==> c.channel_name@ == spec_channel_name(channel_name@),
    {
        let url = redis_url("", &host, port, db_index);
        match open_client(url.as_str()) {
            Ok(client) => Ok(
                RedisConnection { channel_name: channel_name_handler(channel_name), client },
            ),
            Err(e) => Err(e),
        }
    }

    /// Connection authenticated by a password alone.
    pub fn new_with_password(
        host: String,
        port: i32,
        db_index: i32,
        channel_name: String,
        password: String,
    ) -> (r: Result<RedisConnection, redis::RedisError>)
        ensures
            r is Ok <==> url_parses(
                spec_redis_url(
                    ":"@ + password@ + "@"@,
                    host@,
                    port as int,
                    db_index as int,
                ),
            ),
            r matches Ok(c) ==> c.channel_name@ == spec_channel_name(channel_name@),
    {
        let mut credentials = ":".to_owned();
        credentials.append(password.as_str());
        credentials.append("@");
        let url = redis_url(credentials.as_str(), &host, port, db_index);
        match open_client(url.as_str()) {
            Ok(client) => Ok(
                RedisConnection { channel_name: channel_name_handler(channel_name), client },
            ),
            Err(e) => Err(e),
        }
    }

    /// Connection authenticated by a username and a password.
    pub fn new_with_username_password(
        host: String,
        port: i32,
        db_index: i32,
        channel_name: String,
        username: String,
        password: String,
    ) -> (r: Result<RedisConnection, redis::RedisError>)
        ensures
            r is Ok <==> url_parses(
                spec_redis_url(
                    username@ + ":"@ + password@ + "@"@,
                    host@,
                    port as int,
                    db_index as int,
                ),
            ),
            r matches Ok(c) ==> c.channel_name@ == spec_channel_name(channel_name@),
    {
        let mut credentials = username;
        credentials.append(":");
        credentials.append(password.as_str());
        credentials.append("@");
        let url = redis_url(credentials.as_str(), &host, port, db_index);
        match open_client(url.as_str()) {
            Ok(client) => Ok(
                RedisConnection { channel_name: channel_name_handler(channel_name), client },
            ),
            Err(e) => Err(e),
        }
    }

    /// Replaces the channel, normalizing an empty name to the default.
    pub fn set_channel(&mut self, channel_name: String)
        ensures
            final(self).channel_name@ == spec_channel_name(channel_name@),
            final(self).client == old(self).client,
    {
        self.channel_name = channel_name_handler(channel_name);
    }
}

} // verus!
