use vstd::prelude::*;
use crate::probe::{parse_probe, parse_probe_spec};
use crate::registry::{update_effect, ConnectionRegistry};
use crate::tracker::stats_message_of;

verus! {

/// The code and reason carried by a Close frame.
#[derive(Debug)]
pub struct CloseInfo {
    pub code: u16,
    pub reason: String,
}

/// A typed transport message, as handed over by the protocol layer after
/// the handshake: the five WebSocket message kinds, plus `Raw` for an
/// unclassified frame, which is ignored.
#[derive(Debug)]
pub enum Msg {
    Text(String),
    Binary(Vec<u8>),
    Ping(Vec<u8>),
    Pong(Vec<u8>),
    Close(Option<CloseInfo>),
    Raw,
}

/// Whether two optional close frames carry the same code and reason.
pub open spec fn close_frames_match(a: Option<CloseInfo>, b: Option<CloseInfo>) -> bool {
    match (a, b) {
        (Option::None, Option::None) => true,
        (Option::Some(x), Option::Some(y)) => x.code == y.code && x.reason@ == y.reason@,
        _ => false,
    }
}

/// What one inbound message leads to: at most one response frame, an
/// optional periodic statistics snapshot, an optional final statistics
/// block, and whether the session's read loop is over.
#[derive(Debug)]
pub struct Outcome {
    pub reply: Option<Msg>,
    pub stats_log: Option<String>,
    pub final_stats: Option<String>,
    pub done: bool,
}

/// Dispatch one inbound message for connection `id`.
///
/// - Text is echoed back byte-for-byte, whether or not it parses as a
///   probe; when it does parse, the tracker for `id` steps first.
/// - Binary is echoed back byte-for-byte.
/// - A Ping is answered with exactly one Pong carrying the identical
///   payload, and nothing else.
/// - A Pong or an unclassified frame is consumed without a response.
/// - A Close frame is answered with a Close carrying the same code and
///   reason, the connection's entry leaves the registry, its final
///   statistics are reported, and the session is over.
pub fn handle_message(reg: &mut ConnectionRegistry, id: u64, msg: Msg) -> (out: Outcome)
    requires
        old(reg).wf(),
    ensures
        final(reg).wf(),
        final(reg).counter() == old(reg).counter(),
        (match msg {
            Msg::Text(text) => {
                &&& !out.done
                &&& out.final_stats is None
                &&& (out.reply matches Some(m) && m matches Msg::Text(t) && t@ == text@)
                &&& (match parse_probe_spec(text@) {
                    Some(p) => update_effect(
                        old(reg).trackers(),
                        final(reg).trackers(),
                        id,
                        p.0,
                        out.stats_log,
                    ),
                    None => final(reg).trackers() == old(reg).trackers() && out.stats_log is None,
                })
            },
            Msg::Binary(b) => {
                &&& !out.done
                &&& out.final_stats is None && out.stats_log is None
                &&& final(reg).trackers() == old(reg).trackers()
                &&& (out.reply matches Some(m) && m matches Msg::Binary(r) && r@ == b@)
            },
            Msg::Ping(p) => {
                &&& !out.done
                &&& out.final_stats is None && out.stats_log is None
                &&& final(reg).trackers() == old(reg).trackers()
                &&& (out.reply matches Some(m) && m matches Msg::Pong(r) && r@ == p@)
            },
            Msg::Pong(p) => {
                &&& !out.done
                &&& out.reply is None && out.final_stats is None && out.stats_log is None
                &&& final(reg).trackers() == old(reg).trackers()
            },
            Msg::Close(frame) => {
                &&& out.done
                &&& out.stats_log is None
                &&& (out.reply matches Some(m) && m matches Msg::Close(g) && close_frames_match(
                    g,
                    frame,
                ))
                &&& final(reg).trackers() == old(reg).trackers().remove(id)
                &&& (if old(reg).trackers().contains_key(id) {
                    out.final_stats matches Some(st) && st@ == stats_message_of(
                        old(reg).trackers()[id],
                    )
                } else {
                    out.final_stats is None
                })
            },
            Msg::Raw => {
                &&& !out.done
                &&& out.reply is None && out.final_stats is None && out.stats_log is None
                &&& final(reg).trackers() == old(reg).trackers()
            },
        }),
{
    match msg {
        Msg::Text(text) => {
            let stats_log = match parse_probe(text.as_str()) {
                Some(p) => reg.update(id, p.seq),
                None => None,
            };
            Outcome { reply: Some(Msg::Text(text)), stats_log, final_stats: None, done: false }
        },
        Msg::Binary(b) => Outcome {
            reply: Some(Msg::Binary(b)),
            stats_log: None,
            final_stats: None,
            done: false,
        },
        Msg::Ping(p) => Outcome {
            reply: Some(Msg::Pong(p)),
            stats_log: None,
            final_stats: None,
            done: false,
        },
        Msg::Pong(_p) => Outcome { reply: None, stats_log: None, final_stats: None, done: false },
        Msg::Close(frame) => {
            let final_stats = match reg.read(id) {
                Some(t) => Some(t.get_stats_message()),
                None => None,
            };
            let _removed = reg.remove(id);
            Outcome {
                reply: Some(Msg::Close(frame)),
                stats_log: None,
                final_stats,
                done: true,
            }
        },
        Msg::Raw => Outcome { reply: None, stats_log: None, final_stats: None, done: false },
    }
}

/// End-of-session cleanup, run once on every read-loop exit — transport
/// error, write failure, or an already-dispatched Close frame alike. Drops
/// the connection's registry entry and hands back its final statistics
/// block if an entry still existed; after a dispatched Close frame the
/// entry is already gone, so the final statistics of a connection are
/// reported exactly once.
pub fn finish_session(reg: &mut ConnectionRegistry, id: u64) -> (r: Option<String>)
    requires
        old(reg).wf(),
    ensures
        final(reg).wf(),
        final(reg).counter() == old(reg).counter(),
        final(reg).trackers() == old(reg).trackers().remove(id),
        (if old(reg).trackers().contains_key(id) {
            r matches Some(st) && st@ == stats_message_of(old(reg).trackers()[id])
        } else {
            r is None
        }),
{
    match reg.remove(id) {
        Some(t) => Some(t.get_stats_message()),
        None => None,
    }
}

} // verus!
