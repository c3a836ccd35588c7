//! A small WebRTC data-channel library: two peers exchange signals (an offer,
//! an answer and ICE candidates) and end up with a data channel between
//! them, unordered and without retransmits unless a reliable one is asked
//! for.
//!
//! The verified core is made of the signal and error types, the wire format
//! in which the server hands the answer and its candidates to the client,
//! the negotiation that each peer runs, the per-request handshake of the
//! server, the connection pool behind `Server::accept`, and the handles that
//! the application polls.

mod client;
mod config;
mod handshake;
mod http;
mod negotiation;
mod peer;
mod pool;
mod rtc;
mod runtime;
mod server;
mod settings;
mod types;
mod wire;

pub use types::{
    check_connection_message, error_name, from_webrtc, spec_from_webrtc, CheckConnectionError,
    Error, Signal, SignalView,
};
pub use wire::{
    encode_reply, encoded_reply, lemma_reply_round_trip, non_empty, nul, nul_free, reply_answer,
    reply_candidates, reply_fields_ok, reply_signals, split_nul, terminated, decode_reply,
    reply_to_signals, signal_views, views, lemma_read_reply_fits,
};
pub use negotiation::{
    answers, can_fail, candidate_signal, failure_error, next_step, record_error, recorded,
    spec_candidate_signal, state_change_error, Negotiation, Outcome, Role, Step, run, recorded_all,
    lemma_first_error_kept, lemma_failure_ends, offerer_only, lemma_answerer_never_offers,
    lemma_answerer_starts_clean, lemma_offerer_sends_created_offer, lemma_offer_answered,
    answering, lemma_answer_needs_offer, setting_up, lemma_offerer_never_waits_for_channel,
    lemma_offerer_offers_first, valid_run, lemma_no_answer_without_offer,
    lemma_answerer_never_offers_in_run, lemma_answerer_silent_until_offer,
    lemma_offerer_never_answers_unasked, lemma_offerer_offers_before_signals,
    lemma_answering_ends_with_answer, lemma_answer_sent_first, lemma_end_of_candidates_keeps_waiting,
    lemma_signals_acted_on,
};
pub use handshake::{
    answer_signals, handshake_action, handshake_after, handshake_expects, handshake_next,
    initial_handshake, lemma_handshake_delivers, delivers, offer_from_body, polled_view, Handshake,
    HandshakeAction, HandshakeActionView, HandshakeState, STATUS_FAILED, STATUS_SERVER_ERROR,
};
pub use runtime::ErrorSlot;
pub use peer::{
    check_status, lemma_signals_forwarded_in_order, took_signal, DataChannel, Signaler, message_checked,
    message_call, lemma_message_error_kept, handle_step, channel_checked, channel_call,
    lemma_channel_handed_once, lemma_channel_error_kept, message_returned, messages_returned,
    lemma_messages_received_in_order, signal_returned, signal_taken, signal_call, signals_returned,
    lemma_signals_emitted_in_order,
};
pub use pool::{
    dropped_any, kept, plan_keep, retain_marked, scan_ok, selected, PollStatus,
    PENDING_LIMIT_MILLIS, lemma_dropped_for_cause, lemma_ready_handed_out, lemma_all_pending_expire,
    lemma_selected_bounds, marked_count, lemma_selected_keeps_marked, lemma_pool_keeps_pending,
};
pub use server::{
    accept_outcome, expired_flags, keep_flags, last_statuses, measured_from, polled_from,
    Connection, Server, lemma_accept_hands_out_ready, lemma_accept_all_pending, ready_at_most_once,
    ever_ready, follows, connection_life, lemma_one_channel_per_connection, lemma_accept_follows,
    lemma_accept_keeps_pending,
};
pub use client::{offer_to_post, passed_over, reply_read, reply_failed, fed_signals, reply_effect, reply_text, spec_offer_to_post, spec_reply_text, Client};
pub use http::{ascii_bytes, built_header, cors_header};
pub use rtc::{answer_from_sdp, candidate_json_line, gathered_signal, offer_from_sdp, remote_description};
pub use settings::{
    DATA_CHANNEL_LABEL, DATA_CHANNEL_MAX_RETRANSMITS, DATA_CHANNEL_ORDERED, POLL_INTERVAL_MILLIS,
    QUEUE_CAPACITY, STUN_SERVER_URL,
};
pub use config::{
    data_channel_options, kind_for, role_of, spec_data_channel_options, spec_role_of,
    standard_configuration, Configuration, DataChannelConfiguration, IceServer, SignalerKind,
    lemma_kind_decides_role, lemma_channel_options,
};
