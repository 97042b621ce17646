use request_response_tunnel::builder::{
    self, Builder, Channel, Locality, PublisherDeclaration, Reliability, SubscriberDeclaration,
};
use request_response_tunnel::ports::{
    self, MessageTypeDetails, PortConfig, PortsBuilder, ServiceSettings,
};
use request_response_tunnel::relay::{ResponseAction, StaticConfig};
use request_response_tunnel::wire::MessageSizes;

const CONFIG: StaticConfig = StaticConfig {
    request: MessageSizes { user_header: 0, payload: 8 },
    response: MessageSizes { user_header: 0, payload: 8 },
};

fn publisher(channel: Channel) -> PublisherDeclaration {
    PublisherDeclaration {
        channel,
        allowed_destination: Locality::Remote,
        reliability: Reliability::Reliable,
    }
}

fn subscriber(channel: Channel) -> SubscriberDeclaration {
    SubscriberDeclaration { channel, allowed_origin: Locality::Remote, capacity: 10 }
}

#[test]
fn relay_is_created_from_four_endpoints() {
    let stage = Builder::new(CONFIG);
    assert_eq!(stage.declaration(), publisher(Channel::Request));
    let stage = stage.declared(Ok::<_, ()>("requests out")).unwrap();
    assert_eq!(stage.declaration(), subscriber(Channel::Request));
    let stage = stage.declared(Ok::<_, ()>(1)).unwrap();
    assert_eq!(stage.declaration(), publisher(Channel::Response));
    let stage = stage.declared(Ok::<_, ()>("responses out")).unwrap();
    assert_eq!(stage.declaration(), subscriber(Channel::Response));
    let (endpoints, mut relay) = stage.declared::<u8, u8, ()>(Ok(2)).unwrap();
    assert_eq!(endpoints.request_publisher, "requests out");
    assert_eq!(endpoints.request_subscriber, 1);
    assert_eq!(endpoints.response_publisher, "responses out");
    assert_eq!(endpoints.response_subscriber, 2);
    assert!(matches!(relay.receive_response(), ResponseAction::ReceiveSample));
}

#[test]
fn relay_creation_names_the_endpoint_that_failed() {
    let failed = Builder::new(CONFIG).declared(Err::<u8, ()>(()));
    assert_eq!(failed.unwrap_err(), builder::CreationError::RequestPublisherDeclaration);

    let stage = Builder::new(CONFIG).declared(Ok::<u8, ()>(0)).unwrap();
    let failed = stage.declared(Err::<u8, ()>(()));
    assert_eq!(failed.unwrap_err(), builder::CreationError::RequestSubscriberDeclaration);

    let stage = Builder::new(CONFIG).declared(Ok::<u8, ()>(0)).unwrap();
    let stage = stage.declared(Ok::<u8, ()>(0)).unwrap();
    let failed = stage.declared(Err::<u8, ()>(()));
    assert_eq!(failed.unwrap_err(), builder::CreationError::ResponsePublisherDeclaration);

    let stage = Builder::new(CONFIG).declared(Ok::<u8, ()>(0)).unwrap();
    let stage = stage.declared(Ok::<u8, ()>(0)).unwrap();
    let stage = stage.declared(Ok::<u8, ()>(0)).unwrap();
    let failed = stage.declared::<u8, u8, ()>(Err(()));
    assert_eq!(failed.unwrap_err(), builder::CreationError::ResponseSubscriberDeclaration);
}

fn port_config() -> PortConfig<&'static str> {
    PortConfig {
        request_message_type_details: MessageTypeDetails { user_header: "a", payload: "b" },
        response_message_type_details: MessageTypeDetails { user_header: "c", payload: "d" },
        has_safe_overflow_for_requests: true,
        has_safe_overflow_for_responses: false,
        does_support_fire_and_forget_requests: true,
        max_nodes: 1,
        max_servers: 2,
        max_clients: 3,
        max_active_requests_per_client: 4,
        max_response_buffer_size: 5,
        max_loaned_requests: 6,
        max_borrowed_responses_per_pending_response: 7,
    }
}

#[test]
fn local_service_has_the_settings_of_the_service() {
    assert_eq!(
        PortsBuilder::new(port_config()).settings(),
        ServiceSettings {
            request_header_type_details: "a",
            request_payload_type_details: "b",
            response_header_type_details: "c",
            response_payload_type_details: "d",
            enable_safe_overflow_for_requests: true,
            enable_safe_overflow_for_responses: false,
            enable_fire_and_forget_requests: true,
            max_nodes: 1,
            max_servers: 2,
            max_clients: 3,
            max_active_requests_per_client: 4,
            max_response_buffer_size: 5,
            max_loaned_requests: 6,
            max_borrowed_responses_per_pending_response: 7,
        }
    );
}

#[test]
fn ports_are_a_client_and_a_server() {
    let stage = PortsBuilder::new(port_config()).service_opened(Ok::<_, ()>("service")).unwrap();
    assert_eq!(stage.service, "service");
    let stage = stage.client_created(Ok::<_, ()>("client")).unwrap();
    assert_eq!(stage.service, "service");
    let ports = stage.server_created(Ok::<_, ()>("server")).unwrap();
    assert_eq!((ports.client, ports.server), ("client", "server"));
    assert_eq!(ports.static_config, port_config());
}

#[test]
fn ports_creation_names_the_step_that_failed() {
    let failed = PortsBuilder::new(port_config()).service_opened(Err::<u8, ()>(()));
    assert_eq!(failed.unwrap_err(), ports::CreationError::Service);

    let stage = PortsBuilder::new(port_config()).service_opened(Ok::<u8, ()>(0)).unwrap();
    assert_eq!(stage.client_created(Err::<u8, ()>(())).unwrap_err(), ports::CreationError::Client);

    let stage = PortsBuilder::new(port_config()).service_opened(Ok::<u8, ()>(0)).unwrap();
    let stage = stage.client_created(Ok::<u8, ()>(0)).unwrap();
    assert_eq!(stage.server_created(Err::<u8, ()>(())).unwrap_err(), ports::CreationError::Server);
}

#[test]
fn creation_errors_tell_their_names() {
    assert_eq!(ports::CreationError::Service.to_string(), "CreationError::Service");
    assert_eq!(ports::CreationError::Client.to_string(), "CreationError::Client");
    assert_eq!(ports::CreationError::Server.to_string(), "CreationError::Server");
    for error in [
        builder::CreationError::RequestPublisherDeclaration,
        builder::CreationError::RequestSubscriberDeclaration,
        builder::CreationError::ResponsePublisherDeclaration,
        builder::CreationError::ResponseSubscriberDeclaration,
    ] {
        assert_eq!(error.to_string(), format!("CreationError::{error:?}"));
    }
}
