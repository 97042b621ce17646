//! The ports through which the tunnel takes part in a local service: a client that stands in for
//! the remote clients, and a server that stands in for the remote servers.
use vstd::prelude::*;

verus! {

/// Why the ports could not be created.
#[derive(Debug, Clone, Copy, PartialEq, Eq, Structural)]
pub enum CreationError {
    Service,
    Client,
    Server,
}

impl CreationError {
    /// The text that stands for the error.
    pub open spec fn text(&self) -> Seq<char> {
        match self {
            CreationError::Service => "CreationError::Service"@,
            CreationError::Client => "CreationError::Client"@,
            CreationError::Server => "CreationError::Server"@,
        }
    }

    /// The name of the error with that of its type.
    pub fn to_string(&self) -> (text: String)
        ensures
            text@ == self.text(),
    {
        match self {
            CreationError::Service => "CreationError::Service".to_owned(),
            CreationError::Client => "CreationError::Client".to_owned(),
            CreationError::Server => "CreationError::Server".to_owned(),
        }
    }
}

/// Why the ports could not be maintained.
#[derive(Debug, Clone, Copy, PartialEq, Eq, Structural)]
pub enum Error {
    RequestDelivery,
    RequestIngestion,
    ResponseDelivery,
    ResponseIngestion,
    LocalRequestReceive,
}

impl Error {
    /// The text that stands for the error.
    pub open spec fn text(&self) -> Seq<char> {
        match self {
            Error::RequestDelivery => "Error::RequestDelivery"@,
            Error::RequestIngestion => "Error::RequestIngestion"@,
            Error::ResponseDelivery => "Error::ResponseDelivery"@,
            Error::ResponseIngestion => "Error::ResponseIngestion"@,
            Error::LocalRequestReceive => "Error::LocalRequestReceive"@,
        }
    }

    /// The name of the error with that of its type.
    pub fn to_string(&self) -> (text: String)
        ensures
            text@ == self.text(),
    {
        match self {
            Error::RequestDelivery => "Error::RequestDelivery".to_owned(),
            Error::RequestIngestion => "Error::RequestIngestion".to_owned(),
            Error::ResponseDelivery => "Error::ResponseDelivery".to_owned(),
            Error::ResponseIngestion => "Error::ResponseIngestion".to_owned(),
            Error::LocalRequestReceive => "Error::LocalRequestReceive".to_owned(),
        }
    }
}

/// The types of the messages of one direction. `T` tells what is known of a type.
#[derive(Debug, PartialEq, Eq)]
pub struct MessageTypeDetails<T> {
    pub user_header: T,
    pub payload: T,
}

/// The configuration of a service, as every host of it has to have it.
#[derive(Debug, PartialEq, Eq)]
pub struct PortConfig<T> {
    pub request_message_type_details: MessageTypeDetails<T>,
    pub response_message_type_details: MessageTypeDetails<T>,
    pub has_safe_overflow_for_requests: bool,
    pub has_safe_overflow_for_responses: bool,
    pub does_support_fire_and_forget_requests: bool,
    pub max_nodes: usize,
    pub max_servers: usize,
    pub max_clients: usize,
    pub max_active_requests_per_client: usize,
    pub max_response_buffer_size: usize,
    pub max_loaned_requests: usize,
    pub max_borrowed_responses_per_pending_response: usize,
}

/// What the local service is opened or created with.
#[derive(Debug, PartialEq, Eq)]
pub struct ServiceSettings<T> {
    pub request_header_type_details: T,
    pub request_payload_type_details: T,
    pub response_header_type_details: T,
    pub response_payload_type_details: T,
    pub enable_safe_overflow_for_requests: bool,
    pub enable_safe_overflow_for_responses: bool,
    pub enable_fire_and_forget_requests: bool,
    pub max_nodes: usize,
    pub max_servers: usize,
    pub max_clients: usize,
    pub max_active_requests_per_client: usize,
    pub max_response_buffer_size: usize,
    pub max_loaned_requests: usize,
    pub max_borrowed_responses_per_pending_response: usize,
}

/// The ports of a service.
#[derive(Debug)]
pub struct RequestResponsePorts<T, C, V> {
    pub static_config: PortConfig<T>,
    pub client: C,
    pub server: V,
}

/// Ports whose service is not open yet.
#[derive(Debug)]
pub struct PortsBuilder<T> {
    pub static_config: PortConfig<T>,
}

/// Ports whose service is open.
#[derive(Debug)]
pub struct ServiceOpened<T, S> {
    pub static_config: PortConfig<T>,
    pub service: S,
}

/// Ports whose client is created.
#[derive(Debug)]
pub struct ClientCreated<T, S, C> {
    pub static_config: PortConfig<T>,
    pub service: S,
    pub client: C,
}

impl<T: Copy> PortsBuilder<T> {
    /// Ports for the service with the given configuration.
    pub fn new(static_config: PortConfig<T>) -> (builder: Self)
        ensures
            builder.static_config == static_config,
    {
        PortsBuilder { static_config }
    }

    /// What the local service is to be opened or created with: all that is configured for the
    /// service, as it is configured.
    pub fn settings(&self) -> (settings: ServiceSettings<T>)
        ensures
            ({
                let config = self.static_config;
                let request = config.request_message_type_details;
                let response = config.response_message_type_details;
                &&& settings.request_header_type_details == request.user_header
                &&& settings.request_payload_type_details == request.payload
                &&& settings.response_header_type_details == response.user_header
                &&& settings.response_payload_type_details == response.payload
                &&& settings.enable_safe_overflow_for_requests
                    == config.has_safe_overflow_for_requests
                &&& settings.enable_safe_overflow_for_responses
                    == config.has_safe_overflow_for_responses
                &&& settings.enable_fire_and_forget_requests
                    == config.does_support_fire_and_forget_requests
                &&& settings.max_nodes == config.max_nodes
                &&& settings.max_servers == config.max_servers
                &&& settings.max_clients == config.max_clients
                &&& settings.max_active_requests_per_client == config.max_active_requests_per_client
                &&& settings.max_response_buffer_size == config.max_response_buffer_size
                &&& settings.max_loaned_requests == config.max_loaned_requests
                &&& settings.max_borrowed_responses_per_pending_response
                    == config.max_borrowed_responses_per_pending_response
            }),
    {
        ServiceSettings {
            request_header_type_details: self.static_config.request_message_type_details.user_header,
            request_payload_type_details: self.static_config.request_message_type_details.payload,
            response_header_type_details:
                self.static_config.response_message_type_details.user_header,
            response_payload_type_details: self.static_config.response_message_type_details.payload,
            enable_safe_overflow_for_requests: self.static_config.has_safe_overflow_for_requests,
            enable_safe_overflow_for_responses: self.static_config.has_safe_overflow_for_responses,
            enable_fire_and_forget_requests:
                self.static_config.does_support_fire_and_forget_requests,
            max_nodes: self.static_config.max_nodes,
            max_servers: self.static_config.max_servers,
            max_clients: self.static_config.max_clients,
            max_active_requests_per_client: self.static_config.max_active_requests_per_client,
            max_response_buffer_size: self.static_config.max_response_buffer_size,
            max_loaned_requests: self.static_config.max_loaned_requests,
            max_borrowed_responses_per_pending_response:
                self.static_config.max_borrowed_responses_per_pending_response,
        }
    }

    /// The stage after the service was opened.
    pub open spec fn after<S, E>(self, opened: Result<S, E>) -> Result<
        ServiceOpened<T, S>,
        CreationError,
    > {
        match opened {
            Ok(service) => Ok(ServiceOpened { static_config: self.static_config, service }),
            Err(_) => Err(CreationError::Service),
        }
    }

    /// Goes on with the service.
    pub fn service_opened<S, E>(self, opened: Result<S, E>) -> (next: Result<
        ServiceOpened<T, S>,
        CreationError,
    >)
        ensures
            next == self.after(opened),
            match opened {
                Ok(service) => {
                    &&& next matches Ok(stage)
                    &&& stage.static_config == self.static_config
                    &&& stage.service == service
                },
                Err(_) => next == Err::<ServiceOpened<T, S>, _>(CreationError::Service),
            },
    {
        match opened {
            Ok(service) => Ok(ServiceOpened { static_config: self.static_config, service }),
            Err(_) => Err(CreationError::Service),
        }
    }
}

impl<T, S> ServiceOpened<T, S> {
    /// The stage after the client was created.
    pub open spec fn after<C, E>(self, created: Result<C, E>) -> Result<
        ClientCreated<T, S, C>,
        CreationError,
    > {
        match created {
            Ok(client) => Ok(
                ClientCreated { static_config: self.static_config, service: self.service, client },
            ),
            Err(_) => Err(CreationError::Client),
        }
    }

    /// Goes on with the client.
    pub fn client_created<C, E>(self, created: Result<C, E>) -> (next: Result<
        ClientCreated<T, S, C>,
        CreationError,
    >)
        ensures
            next == self.after(created),
            match created {
                Ok(client) => {
                    &&& next matches Ok(stage)
                    &&& stage.static_config == self.static_config
                    &&& stage.service == self.service
                    &&& stage.client == client
                },
                Err(_) => next == Err::<ClientCreated<T, S, C>, _>(CreationError::Client),
            },
    {
        match created {
            Ok(client) => Ok(
                ClientCreated { static_config: self.static_config, service: self.service, client },
            ),
            Err(_) => Err(CreationError::Client),
        }
    }
}

impl<T, S, C> ClientCreated<T, S, C> {
    /// The ports after the server was created.
    pub open spec fn after<V, E>(self, created: Result<V, E>) -> Result<
        RequestResponsePorts<T, C, V>,
        CreationError,
    > {
        match created {
            Ok(server) => Ok(
                RequestResponsePorts {
                    static_config: self.static_config,
                    client: self.client,
                    server,
                },
            ),
            Err(_) => Err(CreationError::Server),
        }
    }

    /// Completes the ports with the server.
    pub fn server_created<V, E>(self, created: Result<V, E>) -> (ports: Result<
        RequestResponsePorts<T, C, V>,
        CreationError,
    >)
        ensures
            ports == self.after(created),
            match created {
                Ok(server) => {
                    &&& ports matches Ok(complete)
                    &&& complete.static_config == self.static_config
                    &&& complete.client == self.client
                    &&& complete.server == server
                },
                Err(_) => ports == Err::<RequestResponsePorts<T, C, V>, _>(CreationError::Server),
            },
    {
        match created {
            Ok(server) => Ok(
                RequestResponsePorts {
                    static_config: self.static_config,
                    client: self.client,
                    server,
                },
            ),
            Err(_) => Err(CreationError::Server),
        }
    }
}

/// No two errors have the same text, and the text starts with the name of the type.
pub proof fn texts_tell_creation_errors_apart(a: CreationError, b: CreationError)
    ensures
        a.text() == b.text() ==> a == b,
        a.text().take(15) == "CreationError::"@,
{
    reveal_strlit("CreationError::");
    reveal_strlit("CreationError::Service");
    reveal_strlit("CreationError::Client");
    reveal_strlit("CreationError::Server");
    assert(a.text().take(15) =~= "CreationError::"@);
    if a.text() == b.text() {
        assert(a.text().len() == b.text().len());
        assert(a.text()[18] == b.text()[18]);
    }
}

/// No two errors have the same text, and the text starts with the name of the type.
pub proof fn texts_tell_errors_apart(a: Error, b: Error)
    ensures
        a.text() == b.text() ==> a == b,
        a.text().take(7) == "Error::"@,
{
    reveal_strlit("Error::");
    reveal_strlit("Error::RequestDelivery");
    reveal_strlit("Error::RequestIngestion");
    reveal_strlit("Error::ResponseDelivery");
    reveal_strlit("Error::ResponseIngestion");
    reveal_strlit("Error::LocalRequestReceive");
    assert(a.text().take(7) =~= "Error::"@);
    if a.text() == b.text() {
        assert(a.text().len() == b.text().len());
        assert(a.text()[10] == b.text()[10]);
        assert(a.text()[15] == b.text()[15]);
    }
}

/// The ports that a builder ends up with, given what came of each step.
pub open spec fn created<T: Copy, S, C, V, E>(
    builder: PortsBuilder<T>,
    service: Result<S, E>,
    client: Result<C, E>,
    server: Result<V, E>,
) -> Result<RequestResponsePorts<T, C, V>, CreationError> {
    match builder.after(service) {
        Err(error) => Err(error),
        Ok(stage) => match stage.after(client) {
            Err(error) => Err(error),
            Ok(stage) => stage.after(server),
        },
    }
}

/// The ports come into being exactly if the service is opened and both ports are created. Every
/// stage has the configuration that the builder was given and what was created so far.
/// Otherwise the error names the first step that failed.
pub proof fn creation_names_the_first_failure<T: Copy, S, C, V, E>(
    builder: PortsBuilder<T>,
    service: Result<S, E>,
    client: Result<C, E>,
    server: Result<V, E>,
)
    ensures
        ({
            let result = created(builder, service, client, server);
            &&& builder.after(service) matches Ok(first) ==> {
                &&& first.static_config == builder.static_config
                &&& service == Ok::<S, E>(first.service)
                &&& first.after(client) matches Ok(second) ==> {
                    &&& second.static_config == builder.static_config
                    &&& service == Ok::<S, E>(second.service)
                    &&& client == Ok::<C, E>(second.client)
                }
            }
            &&& result is Ok <==> (service is Ok && client is Ok && server is Ok)
            &&& result matches Ok(ports) ==> {
                &&& ports.static_config == builder.static_config
                &&& client == Ok::<C, E>(ports.client)
                &&& server == Ok::<V, E>(ports.server)
            }
            &&& result matches Err(error) ==> error == if service is Err {
                CreationError::Service
            } else if client is Err {
                CreationError::Client
            } else {
                CreationError::Server
            }
        }),
{
}

} // verus!
