//! Parsing an authenticated webhook body into an event. The accepted
//! form is the canonical event encoding: a JSON object whose first
//! member is `"event"` with a known event name as its string value;
//! the remainder of the object (the per-kind payload) is the event
//! dispatcher's concern and is not inspected here.

use crate::bytes::copy_range;
use vstd::prelude::*;

verus! {

/// The kinds of event notification the authenticator recognizes.
#[derive(Clone, Copy, Debug, PartialEq, Eq, Structural)]
pub enum EventKind {
    RoomStarted,
    RoomFinished,
    ParticipantJoined,
    ParticipantLeft,
}

/// A parsed event notification.
#[derive(Clone, Copy, Debug, PartialEq, Eq, Structural)]
pub struct Event {
    pub kind: EventKind,
}

/// JSON insignificant whitespace.
pub open spec fn is_ws(b: u8) -> bool {
    b == 32 || b == 9 || b == 10 || b == 13
}

/// First index at or after `i` holding a non-whitespace byte.
pub open spec fn skip_ws(s: Seq<u8>, i: int) -> int
    decreases s.len() - i,
{
    if 0 <= i < s.len() && is_ws(s[i]) {
        skip_ws(s, i + 1)
    } else {
        i
    }
}

/// Index of the closing quote of a plain string body starting at `i`;
/// `None` if an escape, a control byte or the end of input comes first.
pub open spec fn scan_str(s: Seq<u8>, i: int) -> Option<int>
    decreases s.len() - i,
{
    if !(0 <= i < s.len()) {
        None
    } else if s[i] == 34 {
        Some(i)
    } else if s[i] == 92 || s[i] < 32 {
        None
    } else {
        scan_str(s, i + 1)
    }
}

/// The seven bytes of a quoted `event` member name.
pub open spec fn event_key() -> Seq<u8> {
    seq![34u8, 101u8, 118u8, 101u8, 110u8, 116u8, 34u8]
}

pub open spec fn name_room_started() -> Seq<u8> {
    seq![114u8, 111u8, 111u8, 109u8, 95u8, 115u8, 116u8, 97u8, 114u8, 116u8, 101u8, 100u8]
}

pub open spec fn name_room_finished() -> Seq<u8> {
    seq![114u8, 111u8, 111u8, 109u8, 95u8, 102u8, 105u8, 110u8, 105u8, 115u8, 104u8, 101u8, 100u8]
}

pub open spec fn name_participant_joined() -> Seq<u8> {
    seq![
        112u8,
        97u8,
        114u8,
        116u8,
        105u8,
        99u8,
        105u8,
        112u8,
        97u8,
        110u8,
        116u8,
        95u8,
        106u8,
        111u8,
        105u8,
        110u8,
        101u8,
        100u8,
    ]
}

pub open spec fn name_participant_left() -> Seq<u8> {
    seq![
        112u8,
        97u8,
        114u8,
        116u8,
        105u8,
        99u8,
        105u8,
        112u8,
        97u8,
        110u8,
        116u8,
        95u8,
        108u8,
        101u8,
        102u8,
        116u8,
    ]
}

/// The event kind a name denotes, if any.
pub open spec fn spec_kind_of(v: Seq<u8>) -> Option<EventKind> {
    if v == name_room_started() {
        Some(EventKind::RoomStarted)
    } else if v == name_room_finished() {
        Some(EventKind::RoomFinished)
    } else if v == name_participant_joined() {
        Some(EventKind::ParticipantJoined)
    } else if v == name_participant_left() {
        Some(EventKind::ParticipantLeft)
    } else {
        None
    }
}

/// The event a body denotes: a JSON object opening with an `"event"`
/// member whose string value names a known kind, followed by a comma or
/// the closing brace.
pub open spec fn spec_parse_event(s: Seq<u8>) -> Option<Event> {
    let i0 = skip_ws(s, 0);
    if !(i0 < s.len() && s[i0] == 123) {
        None
    } else {
        let i1 = skip_ws(s, i0 + 1);
        if i1 + 7 > s.len() || s.subrange(i1, i1 + 7) != event_key() {
            None
        } else {
            let i2 = skip_ws(s, i1 + 7);
            if !(i2 < s.len() && s[i2] == 58) {
                None
            } else {
                let i3 = skip_ws(s, i2 + 1);
                if !(i3 < s.len() && s[i3] == 34) {
                    None
                } else {
                    match scan_str(s, i3 + 1) {
                        None => None,
                        Some(j) => {
                            let k = skip_ws(s, j + 1);
                            if !(k < s.len() && (s[k] == 44 || s[k] == 125)) {
                                None
                            } else {
                                match spec_kind_of(s.subrange(i3 + 1, j)) {
                                    Some(kind) => Some(Event { kind }),
                                    None => None,
                                }
                            }
                        },
                    }
                }
            }
        }
    }
}

fn ws_end(s: &[u8], from: usize) -> (r: usize)
    requires
        from <= s@.len(),
    ensures
        from <= r <= s@.len(),
        r as int == skip_ws(s@, from as int),
{
    let mut i = from;
    while i < s.len() && (s[i] == 32 || s[i] == 9 || s[i] == 10 || s[i] == 13)
        invariant
            from <= i <= s@.len(),
            skip_ws(s@, from as int) == skip_ws(s@, i as int),
        decreases s@.len() - i,
    {
        i += 1;
    }
    i
}

fn scan_str_end(s: &[u8], from: usize) -> (r: Option<usize>)
    requires
        from <= s@.len(),
    ensures
        match r {
            Some(j) => from <= j < s@.len() && scan_str(s@, from as int) == Some(j as int),
            None => scan_str(s@, from as int) is None,
        },
{
    let mut i = from;
    loop
        invariant
            from <= i <= s@.len(),
            scan_str(s@, from as int) == scan_str(s@, i as int),
        decreases s@.len() - i,
    {
        if i >= s.len() {
            return None;
        }
        let b = s[i];
        if b == 34 {
            return Some(i);
        }
        if b == 92 || b < 32 {
            return None;
        }
        i += 1;
    }
}

fn key_at(s: &[u8], i: usize) -> (r: bool)
    requires
        i + 7 <= s@.len(),
    ensures
        r == (s@.subrange(i as int, i as int + 7) == event_key()),
{
    let ok = s[i] == 34 && s[i + 1] == 101 && s[i + 2] == 118 && s[i + 3] == 101 && s[i + 4] == 110
        && s[i + 5] == 116 && s[i + 6] == 34;
    proof {
        let w = s@.subrange(i as int, i as int + 7);
        assert(w[0] == s@[i as int] && w[1] == s@[i as int + 1] && w[2] == s@[i as int + 2] && w[3]
            == s@[i as int + 3] && w[4] == s@[i as int + 4] && w[5] == s@[i as int + 5] && w[6]
            == s@[i as int + 6]);
        if ok {
            assert(w =~= event_key());
        }
    }
    ok
}

fn kind_of(v: &[u8]) -> (r: Option<EventKind>)
    ensures
        r == spec_kind_of(v@),
{
    if v.len() == 12 && v[0] == 114 && v[1] == 111 && v[2] == 111 && v[3] == 109 && v[4] == 95
        && v[5] == 115 && v[6] == 116 && v[7] == 97 && v[8] == 114 && v[9] == 116 && v[10] == 101
        && v[11] == 100 {
        proof {
            assert(v@ =~= name_room_started());
        }
        Some(EventKind::RoomStarted)
    } else if v.len() == 13 && v[0] == 114 && v[1] == 111 && v[2] == 111 && v[3] == 109 && v[4]
        == 95 && v[5] == 102 && v[6] == 105 && v[7] == 110 && v[8] == 105 && v[9] == 115 && v[10]
        == 104 && v[11] == 101 && v[12] == 100 {
        proof {
            assert(v@ =~= name_room_finished());
        }
        Some(EventKind::RoomFinished)
    } else if v.len() == 18 && v[0] == 112 && v[1] == 97 && v[2] == 114 && v[3] == 116 && v[4]
        == 105 && v[5] == 99 && v[6] == 105 && v[7] == 112 && v[8] == 97 && v[9] == 110 && v[10]
        == 116 && v[11] == 95 && v[12] == 106 && v[13] == 111 && v[14] == 105 && v[15] == 110 && v[16]
        == 101 && v[17] == 100 {
        proof {
            assert(v@ =~= name_participant_joined());
        }
        Some(EventKind::ParticipantJoined)
    } else if v.len() == 16 && v[0] == 112 && v[1] == 97 && v[2] == 114 && v[3] == 116 && v[4]
        == 105 && v[5] == 99 && v[6] == 105 && v[7] == 112 && v[8] == 97 && v[9] == 110 && v[10]
        == 116 && v[11] == 95 && v[12] == 108 && v[13] == 101 && v[14] == 102 && v[15] == 116 {
        proof {
            assert(v@ =~= name_participant_left());
        }
        Some(EventKind::ParticipantLeft)
    } else {
        proof {
            if v@ == name_room_started() {
                assert(v@.len() == 12 && v@[0] == 114 && v@[1] == 111 && v@[2] == 111 && v@[3]
                    == 109 && v@[4] == 95 && v@[5] == 115 && v@[6] == 116 && v@[7] == 97 && v@[8]
                    == 114 && v@[9] == 116 && v@[10] == 101 && v@[11] == 100);
            }
            if v@ == name_room_finished() {
                assert(v@.len() == 13 && v@[0] == 114 && v@[1] == 111 && v@[2] == 111 && v@[3]
                    == 109 && v@[4] == 95 && v@[5] == 102 && v@[6] == 105 && v@[7] == 110 && v@[8]
                    == 105 && v@[9] == 115 && v@[10] == 104 && v@[11] == 101 && v@[12] == 100);
            }
            if v@ == name_participant_joined() {
                assert(v@.len() == 18 && v@[0] == 112 && v@[1] == 97 && v@[2] == 114 && v@[3]
                    == 116 && v@[4] == 105 && v@[5] == 99 && v@[6] == 105 && v@[7] == 112 && v@[8]
                    == 97 && v@[9] == 110 && v@[10] == 116 && v@[11] == 95 && v@[12] == 106 && v@[13]
                    == 111 && v@[14] == 105 && v@[15] == 110 && v@[16] == 101 && v@[17] == 100);
            }
            if v@ == name_participant_left() {
                assert(v@.len() == 16 && v@[0] == 112 && v@[1] == 97 && v@[2] == 114 && v@[3]
                    == 116 && v@[4] == 105 && v@[5] == 99 && v@[6] == 105 && v@[7] == 112 && v@[8]
                    == 97 && v@[9] == 110 && v@[10] == 116 && v@[11] == 95 && v@[12] == 108 && v@[13]
                    == 101 && v@[14] == 102 && v@[15] == 116);
            }
        }
        None
    }
}

/// Parses a body into an event; `None` on anything but the canonical
/// event encoding with a known kind.
pub fn parse_event(s: &[u8]) -> (r: Option<Event>)
    ensures
        r == spec_parse_event(s@),
{
    let i0 = ws_end(s, 0);
    if !(i0 < s.len() && s[i0] == 123) {
        return None;
    }
    let i1 = ws_end(s, i0 + 1);
    if s.len() - i1 < 7 {
        return None;
    }
    if !key_at(s, i1) {
        return None;
    }
    let i2 = ws_end(s, i1 + 7);
    if !(i2 < s.len() && s[i2] == 58) {
        return None;
    }
    let i3 = ws_end(s, i2 + 1);
    if !(i3 < s.len() && s[i3] == 34) {
        return None;
    }
    let j = match scan_str_end(s, i3 + 1) {
        Some(j) => j,
        None => {
            return None;
        },
    };
    let k = ws_end(s, j + 1);
    if !(k < s.len() && (s[k] == 44 || s[k] == 125)) {
        return None;
    }
    let name = copy_range(s, i3 + 1, j);
    match kind_of(name.as_slice()) {
        Some(kind) => Some(Event { kind }),
        None => None,
    }
}

} // verus!
