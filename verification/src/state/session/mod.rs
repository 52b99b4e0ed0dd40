//! The state of one MQTT session.

mod capabilities;
mod machine;
mod params;

pub use capabilities::{
    spec_check_entry, spec_default_capabilities, spec_validate_publish, spec_validate_subscribe,
    ServerCapabilities, ServerCapabilityError,
};
pub use machine::{
    lemma_abort_publish_undoes_publish_sent, lemma_abort_subscribe_undoes_subscribe_sent,
    lemma_abort_unsubscribe_undoes_unsubscribe_sent, spec_connack_apply, spec_connack_check, spec_connected, spec_reset_connection_state,
    spec_reset_session_state, ConnectionState, HandleSubackError, HandleUnsubackError, Session,
    SessionError, SessionView,
};
pub use params::{ConnackError, ConnackParams, ConnackParamsView, ConnackReason};
