//! How a relay comes into being: four endpoints are declared on the transport, one after the
//! other, and the first one that cannot be declared ends it.
//!
//! Each stage tells what is to be declared next and is handed what came of it.
use crate::relay::{Relay, StaticConfig};
use vstd::prelude::*;

verus! {

/// Why a relay could not be created.
#[derive(Debug, Clone, Copy, PartialEq, Eq, Structural)]
pub enum CreationError {
    RequestPublisherDeclaration,
    RequestSubscriberDeclaration,
    ResponsePublisherDeclaration,
    ResponseSubscriberDeclaration,
}

impl CreationError {
    /// The text that stands for the error.
    pub open spec fn text(&self) -> Seq<char> {
        match self {
            CreationError::RequestPublisherDeclaration => {
                "CreationError::RequestPublisherDeclaration"@
            },
            CreationError::RequestSubscriberDeclaration => {
                "CreationError::RequestSubscriberDeclaration"@
            },
            CreationError::ResponsePublisherDeclaration => {
                "CreationError::ResponsePublisherDeclaration"@
            },
            CreationError::ResponseSubscriberDeclaration => {
                "CreationError::ResponseSubscriberDeclaration"@
            },
        }
    }

    /// The name of the error with that of its type.
    pub fn to_string(&self) -> (text: String)
        ensures
            text@ == self.text(),
    {
        match self {
            CreationError::RequestPublisherDeclaration => {
                "CreationError::RequestPublisherDeclaration".to_owned()
            },
            CreationError::RequestSubscriberDeclaration => {
                "CreationError::RequestSubscriberDeclaration".to_owned()
            },
            CreationError::ResponsePublisherDeclaration => {
                "CreationError::ResponsePublisherDeclaration".to_owned()
            },
            CreationError::ResponseSubscriberDeclaration => {
                "CreationError::ResponseSubscriberDeclaration".to_owned()
            },
        }
    }
}

/// The two keys of a service on the transport: one for its requests, one for its responses.
#[derive(Debug, Clone, Copy, PartialEq, Eq, Structural)]
pub enum Channel {
    Request,
    Response,
}

/// Which sessions an endpoint exchanges samples with.
#[derive(Debug, Clone, Copy, PartialEq, Eq, Structural)]
pub enum Locality {
    SessionLocal,
    Remote,
    Any,
}

/// Whether the transport may lose samples.
#[derive(Debug, Clone, Copy, PartialEq, Eq, Structural)]
pub enum Reliability {
    BestEffort,
    Reliable,
}

/// The number of samples that a subscriber holds for the relay.
pub const SUBSCRIBER_CAPACITY: usize = 10;

/// A publisher to be declared.
#[derive(Debug, Clone, Copy, PartialEq, Eq, Structural)]
pub struct PublisherDeclaration {
    pub channel: Channel,
    pub allowed_destination: Locality,
    pub reliability: Reliability,
}

/// A subscriber to be declared, with a queue that hands samples out in the order of their
/// arrival.
#[derive(Debug, Clone, Copy, PartialEq, Eq, Structural)]
pub struct SubscriberDeclaration {
    pub channel: Channel,
    pub allowed_origin: Locality,
    pub capacity: usize,
}

/// Samples go to remote sessions only, and none is lost.
pub open spec fn publisher_on(channel: Channel) -> PublisherDeclaration {
    PublisherDeclaration {
        channel,
        allowed_destination: Locality::Remote,
        reliability: Reliability::Reliable,
    }
}

/// Samples come from remote sessions only.
pub open spec fn subscriber_on(channel: Channel) -> SubscriberDeclaration {
    SubscriberDeclaration {
        channel,
        allowed_origin: Locality::Remote,
        capacity: SUBSCRIBER_CAPACITY,
    }
}

fn declare_publisher_on(channel: Channel) -> (declaration: PublisherDeclaration)
    ensures
        declaration == publisher_on(channel),
        declaration.channel == channel,
        declaration.allowed_destination == Locality::Remote,
        declaration.reliability == Reliability::Reliable,
{
    PublisherDeclaration {
        channel,
        allowed_destination: Locality::Remote,
        reliability: Reliability::Reliable,
    }
}

fn declare_subscriber_on(channel: Channel) -> (declaration: SubscriberDeclaration)
    ensures
        declaration == subscriber_on(channel),
        declaration.channel == channel,
        declaration.allowed_origin == Locality::Remote,
        declaration.capacity == 10,
{
    SubscriberDeclaration {
        channel,
        allowed_origin: Locality::Remote,
        capacity: SUBSCRIBER_CAPACITY,
    }
}

/// The endpoints of a relay.
#[derive(Debug)]
pub struct Endpoints<P, S> {
    pub request_publisher: P,
    pub request_subscriber: S,
    pub response_publisher: P,
    pub response_subscriber: S,
}

/// A relay of which nothing is declared yet.
#[derive(Debug)]
pub struct Builder {
    pub static_config: StaticConfig,
}

/// A relay whose publisher for requests is declared.
#[derive(Debug)]
pub struct RequestPublisherDeclared<P> {
    pub static_config: StaticConfig,
    pub request_publisher: P,
}

/// A relay whose publisher and subscriber for requests are declared.
#[derive(Debug)]
pub struct RequestSubscriberDeclared<P, S> {
    pub static_config: StaticConfig,
    pub request_publisher: P,
    pub request_subscriber: S,
}

/// A relay of which only the subscriber for responses is not declared yet.
#[derive(Debug)]
pub struct ResponsePublisherDeclared<P, S> {
    pub static_config: StaticConfig,
    pub request_publisher: P,
    pub request_subscriber: S,
    pub response_publisher: P,
}

impl Builder {
    /// A relay for the service with the given sizes.
    pub fn new(static_config: StaticConfig) -> (builder: Builder)
        ensures
            builder.static_config == static_config,
    {
        Builder { static_config }
    }

    /// What is to be declared first.
    pub fn declaration(&self) -> (declaration: PublisherDeclaration)
        ensures
            declaration == publisher_on(Channel::Request),
    {
        declare_publisher_on(Channel::Request)
    }

    /// The stage after the publisher for requests was declared.
    pub open spec fn after<P, E>(self, declared: Result<P, E>) -> Result<
        RequestPublisherDeclared<P>,
        CreationError,
    > {
        match declared {
            Ok(request_publisher) => Ok(
                RequestPublisherDeclared { static_config: self.static_config, request_publisher },
            ),
            Err(_) => Err(CreationError::RequestPublisherDeclaration),
        }
    }

    /// Goes on with the publisher for requests.
    pub fn declared<P, E>(self, declared: Result<P, E>) -> (next: Result<
        RequestPublisherDeclared<P>,
        CreationError,
    >)
        ensures
            next == self.after(declared),
            match declared {
                Ok(request_publisher) => {
                    &&& next matches Ok(stage)
                    &&& stage.static_config == self.static_config
                    &&& stage.request_publisher == request_publisher
                },
                Err(_) => next == Err::<RequestPublisherDeclared<P>, _>(
                    CreationError::RequestPublisherDeclaration,
                ),
            },
    {
        match declared {
            Ok(request_publisher) => Ok(
                RequestPublisherDeclared { static_config: self.static_config, request_publisher },
            ),
            Err(_) => Err(CreationError::RequestPublisherDeclaration),
        }
    }
}

impl<P> RequestPublisherDeclared<P> {
    /// What is to be declared next.
    pub fn declaration(&self) -> (declaration: SubscriberDeclaration)
        ensures
            declaration == subscriber_on(Channel::Request),
    {
        declare_subscriber_on(Channel::Request)
    }

    /// The stage after the subscriber for requests was declared.
    pub open spec fn after<S, E>(self, declared: Result<S, E>) -> Result<
        RequestSubscriberDeclared<P, S>,
        CreationError,
    > {
        match declared {
            Ok(request_subscriber) => Ok(
                RequestSubscriberDeclared {
                    static_config: self.static_config,
                    request_publisher: self.request_publisher,
                    request_subscriber,
                },
            ),
            Err(_) => Err(CreationError::RequestSubscriberDeclaration),
        }
    }

    /// Goes on with the subscriber for requests.
    pub fn declared<S, E>(self, declared: Result<S, E>) -> (next: Result<
        RequestSubscriberDeclared<P, S>,
        CreationError,
    >)
        ensures
            next == self.after(declared),
            match declared {
                Ok(request_subscriber) => {
                    &&& next matches Ok(stage)
                    &&& stage.static_config == self.static_config
                    &&& stage.request_publisher == self.request_publisher
                    &&& stage.request_subscriber == request_subscriber
                },
                Err(_) => next == Err::<RequestSubscriberDeclared<P, S>, _>(
                    CreationError::RequestSubscriberDeclaration,
                ),
            },
    {
        match declared {
            Ok(request_subscriber) => Ok(
                RequestSubscriberDeclared {
                    static_config: self.static_config,
                    request_publisher: self.request_publisher,
                    request_subscriber,
                },
            ),
            Err(_) => Err(CreationError::RequestSubscriberDeclaration),
        }
    }
}

impl<P, S> RequestSubscriberDeclared<P, S> {
    /// What is to be declared next.
    pub fn declaration(&self) -> (declaration: PublisherDeclaration)
        ensures
            declaration == publisher_on(Channel::Response),
    {
        declare_publisher_on(Channel::Response)
    }

    /// The stage after the publisher for responses was declared.
    pub open spec fn after<E>(self, declared: Result<P, E>) -> Result<
        ResponsePublisherDeclared<P, S>,
        CreationError,
    > {
        match declared {
            Ok(response_publisher) => Ok(
                ResponsePublisherDeclared {
                    static_config: self.static_config,
                    request_publisher: self.request_publisher,
                    request_subscriber: self.request_subscriber,
                    response_publisher,
                },
            ),
            Err(_) => Err(CreationError::ResponsePublisherDeclaration),
        }
    }

    /// Goes on with the publisher for responses.
    pub fn declared<E>(self, declared: Result<P, E>) -> (next: Result<
        ResponsePublisherDeclared<P, S>,
        CreationError,
    >)
        ensures
            next == self.after(declared),
            match declared {
                Ok(response_publisher) => {
                    &&& next matches Ok(stage)
                    &&& stage.static_config == self.static_config
                    &&& stage.request_publisher == self.request_publisher
                    &&& stage.request_subscriber == self.request_subscriber
                    &&& stage.response_publisher == response_publisher
                },
                Err(_) => next == Err::<ResponsePublisherDeclared<P, S>, _>(
                    CreationError::ResponsePublisherDeclaration,
                ),
            },
    {
        match declared {
            Ok(response_publisher) => Ok(
                ResponsePublisherDeclared {
                    static_config: self.static_config,
                    request_publisher: self.request_publisher,
                    request_subscriber: self.request_subscriber,
                    response_publisher,
                },
            ),
            Err(_) => Err(CreationError::ResponsePublisherDeclaration),
        }
    }
}

impl<P, S> ResponsePublisherDeclared<P, S> {
    /// What is to be declared last.
    pub fn declaration(&self) -> (declaration: SubscriberDeclaration)
        ensures
            declaration == subscriber_on(Channel::Response),
    {
        declare_subscriber_on(Channel::Response)
    }

    /// The endpoints of the relay after the subscriber for responses was declared.
    pub open spec fn after<E>(self, declared: Result<S, E>) -> Result<
        Endpoints<P, S>,
        CreationError,
    > {
        match declared {
            Ok(response_subscriber) => Ok(
                Endpoints {
                    request_publisher: self.request_publisher,
                    request_subscriber: self.request_subscriber,
                    response_publisher: self.response_publisher,
                    response_subscriber,
                },
            ),
            Err(_) => Err(CreationError::ResponseSubscriberDeclaration),
        }
    }

    /// Completes the relay with the subscriber for responses. Nothing is pending in it.
    pub fn declared<Req, Pend, E>(self, declared: Result<S, E>) -> (created: Result<
        (Endpoints<P, S>, Relay<Req, Pend>),
        CreationError,
    >)
        ensures
            match created {
                Ok((endpoints, relay)) => {
                    &&& self.after(declared) == Ok::<_, CreationError>(endpoints)
                    &&& relay.well_formed()
                    &&& relay.static_config() == self.static_config
                    &&& relay.local() == Map::<crate::header::RequestKey, Req>::empty()
                    &&& relay.remote() == crate::pending::Awaited::<Pend>::nothing()
                },
                Err(error) => self.after(declared) == Err::<Endpoints<P, S>, _>(error),
            },
            match declared {
                Ok(response_subscriber) => {
                    &&& created matches Ok((endpoints, relay))
                    &&& endpoints.request_publisher == self.request_publisher
                    &&& endpoints.request_subscriber == self.request_subscriber
                    &&& endpoints.response_publisher == self.response_publisher
                    &&& endpoints.response_subscriber == response_subscriber
                    &&& relay.remote().entries.len() == 0
                },
                Err(_) => created == Err::<(Endpoints<P, S>, Relay<Req, Pend>), _>(
                    CreationError::ResponseSubscriberDeclaration,
                ),
            },
    {
        match declared {
            Ok(response_subscriber) => Ok(
                (
                    Endpoints {
                        request_publisher: self.request_publisher,
                        request_subscriber: self.request_subscriber,
                        response_publisher: self.response_publisher,
                        response_subscriber,
                    },
                    Relay::new(self.static_config),
                ),
            ),
            Err(_) => Err(CreationError::ResponseSubscriberDeclaration),
        }
    }
}

/// All endpoints exchange samples with remote sessions only. Nothing that is published is lost,
/// and a subscriber holds up to ten samples.
pub proof fn endpoints_face_the_remote_side(channel: Channel)
    ensures
        publisher_on(channel).channel == channel,
        publisher_on(channel).allowed_destination == Locality::Remote,
        publisher_on(channel).reliability == Reliability::Reliable,
        subscriber_on(channel).channel == channel,
        subscriber_on(channel).allowed_origin == Locality::Remote,
        subscriber_on(channel).capacity == 10,
{
}

/// No two errors have the same text, and the text starts with the name of the type.
pub proof fn texts_tell_creation_errors_apart(a: CreationError, b: CreationError)
    ensures
        a.text() == b.text() ==> a == b,
        a.text().take(15) == "CreationError::"@,
{
    reveal_strlit("CreationError::");
    reveal_strlit("CreationError::RequestPublisherDeclaration");
    reveal_strlit("CreationError::RequestSubscriberDeclaration");
    reveal_strlit("CreationError::ResponsePublisherDeclaration");
    reveal_strlit("CreationError::ResponseSubscriberDeclaration");
    assert(a.text().take(15) =~= "CreationError::"@);
    if a.text() == b.text() {
        assert(a.text().len() == b.text().len());
        assert(a.text()[17] == b.text()[17]);
        assert(a.text()[18] == b.text()[18]);
        assert(a.text()[20] == b.text()[20]);
    }
}

/// The endpoints that a builder ends up with, given what came of each declaration.
pub open spec fn created<P, S, E>(
    builder: Builder,
    request_publisher: Result<P, E>,
    request_subscriber: Result<S, E>,
    response_publisher: Result<P, E>,
    response_subscriber: Result<S, E>,
) -> Result<Endpoints<P, S>, CreationError> {
    match builder.after(request_publisher) {
        Err(error) => Err(error),
        Ok(stage) => match stage.after(request_subscriber) {
            Err(error) => Err(error),
            Ok(stage) => match stage.after(response_publisher) {
                Err(error) => Err(error),
                Ok(stage) => stage.after(response_subscriber),
            },
        },
    }
}

/// A relay comes into being exactly if all four endpoints are declared, and then has each of them
/// in its place. Every stage on the way has the sizes that the builder was given, for requests and
/// for responses. Where an endpoint is not declared, the error names the first one that failed.
pub proof fn creation_names_the_first_failure<P, S, E>(
    builder: Builder,
    request_publisher: Result<P, E>,
    request_subscriber: Result<S, E>,
    response_publisher: Result<P, E>,
    response_subscriber: Result<S, E>,
)
    ensures
        builder.after(request_publisher) matches Ok(first) ==> {
            &&& first.static_config == builder.static_config
            &&& first.after(request_subscriber) matches Ok(second) ==> {
                &&& second.static_config == builder.static_config
                &&& second.after(response_publisher) matches Ok(third) ==> third.static_config
                    == builder.static_config
            }
        },
        ({
            let result = created(
                builder,
                request_publisher,
                request_subscriber,
                response_publisher,
                response_subscriber,
            );
            &&& result is Ok <==> (request_publisher is Ok && request_subscriber is Ok
                && response_publisher is Ok && response_subscriber is Ok)
            &&& result matches Ok(endpoints) ==> {
                &&& request_publisher == Ok::<P, E>(endpoints.request_publisher)
                &&& request_subscriber == Ok::<S, E>(endpoints.request_subscriber)
                &&& response_publisher == Ok::<P, E>(endpoints.response_publisher)
                &&& response_subscriber == Ok::<S, E>(endpoints.response_subscriber)
            }
            &&& result matches Err(error) ==> error == if request_publisher is Err {
                CreationError::RequestPublisherDeclaration
            } else if request_subscriber is Err {
                CreationError::RequestSubscriberDeclaration
            } else if response_publisher is Err {
                CreationError::ResponsePublisherDeclaration
            } else {
                CreationError::ResponseSubscriberDeclaration
            }
        }),
{
}

/// A relay has the sizes that its builder was given: where the four stages follow one another and
/// `relay` has those of the last one, it has the same user header and payload sizes as the
/// builder, for requests and for responses.
pub proof fn relay_has_the_sizes_of_its_builder<P, S, Req, Pend, E>(
    builder: Builder,
    request_publisher: Result<P, E>,
    request_subscriber: Result<S, E>,
    response_publisher: Result<P, E>,
    first: RequestPublisherDeclared<P>,
    second: RequestSubscriberDeclared<P, S>,
    third: ResponsePublisherDeclared<P, S>,
    relay: Relay<Req, Pend>,
)
    requires
        builder.after(request_publisher) == Ok::<_, CreationError>(first),
        first.after(request_subscriber) == Ok::<_, CreationError>(second),
        second.after(response_publisher) == Ok::<_, CreationError>(third),
        relay.static_config() == third.static_config,
    ensures
        relay.static_config() == builder.static_config,
        relay.static_config().request.user_header == builder.static_config.request.user_header,
        relay.static_config().request.payload == builder.static_config.request.payload,
        relay.static_config().response.user_header == builder.static_config.response.user_header,
        relay.static_config().response.payload == builder.static_config.response.payload,
{
}

} // verus!
