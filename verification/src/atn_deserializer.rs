//! Reads the serialized grammar blob into a fully-linked network. The blob
//! is a sequence of 16-bit code units, each stored shifted by +2 (except the
//! leading version word); a unit of 0xFFFF stands for -1 where a signed
//! value is expected. Any malformed table yields an error.

use vstd::prelude::*;
use crate::atn::ATN;
use crate::atn::ATNType;
use crate::atn_state::ATNBlockStart;
use crate::atn_state::ATNDecisionState;
use crate::atn_state::ATNStateType;
use crate::atn_state::BaseATNState;
use crate::atn_state::ATNSTATE_BASIC;
use crate::atn_state::ATNSTATE_BLOCK_END;
use crate::atn_state::ATNSTATE_BLOCK_START;
use crate::atn_state::ATNSTATE_INVALID_TYPE;
use crate::atn_state::ATNSTATE_LOOP_END;
use crate::atn_state::ATNSTATE_PLUS_BLOCK_START;
use crate::atn_state::ATNSTATE_PLUS_LOOP_BACK;
use crate::atn_state::ATNSTATE_RULE_START;
use crate::atn_state::ATNSTATE_RULE_STOP;
use crate::atn_state::ATNSTATE_STAR_BLOCK_START;
use crate::atn_state::ATNSTATE_STAR_LOOP_BACK;
use crate::atn_state::ATNSTATE_STAR_LOOP_ENTRY;
use crate::atn_state::ATNSTATE_TOKEN_START;
use crate::errors::ANTLRError;
use crate::interval_set::IntervalSet;
use crate::lexer_action::LexerAction;
use crate::lexer_action::LEXER_ACTION_TYPE_CHANNEL;
use crate::lexer_action::LEXER_ACTION_TYPE_CUSTOM;
use crate::lexer_action::LEXER_ACTION_TYPE_MODE;
use crate::lexer_action::LEXER_ACTION_TYPE_MORE;
use crate::lexer_action::LEXER_ACTION_TYPE_POP_MODE;
use crate::lexer_action::LEXER_ACTION_TYPE_PUSH_MODE;
use crate::lexer_action::LEXER_ACTION_TYPE_SKIP;
use crate::lexer_action::LEXER_ACTION_TYPE_TYPE;
use crate::token::TOKEN_EOF;
use crate::transition::Transition;
use crate::transition::TRANSITION_ACTION;
use crate::transition::TRANSITION_ATOM;
use crate::transition::TRANSITION_EPSILON;
use crate::transition::TRANSITION_NOTSET;
use crate::transition::TRANSITION_PRECEDENCE;
use crate::transition::TRANSITION_PREDICATE;
use crate::transition::TRANSITION_RANGE;
use crate::transition::TRANSITION_RULE;
use crate::transition::TRANSITION_SET;
use crate::transition::TRANSITION_WILDCARD;

verus! {

/// The only accepted value of the leading (unshifted) version word.
pub const SERIALIZED_VERSION: isize = 3;

/// What `uuid::Uuid::parse_str` yields on a string: 16 bytes when the
/// string is a well-formed UUID, nothing otherwise.
pub uninterp spec fn uuid_parse(s: Seq<char>) -> Option<Seq<u8>>;

/// Relies on `uuid::Uuid::parse_str` and `Uuid::as_bytes`: parsing depends
/// on the characters alone and a UUID is exactly 16 bytes.
#[verifier::external_body]
fn parse_uuid_str(s: &str) -> (r: Option<Vec<u8>>)
    ensures
        r is Some <==> uuid_parse(s@) is Some,
        r matches Some(v) ==> (uuid_parse(s@) matches Some(b) && v@ == b && v@.len() == 16),
{
    uuid::Uuid::parse_str(s).ok().map(|u| u.as_bytes().to_vec())
}

/// Relies on `byteorder::WriteBytesExt::write_u16::<LittleEndian>`: the low
/// byte first, then the high byte.
#[verifier::external_body]
fn u16_le_bytes(v: u16) -> (r: Vec<u8>)
    ensures
        r@.len() == 2,
        r@[0] == (v % 256) as u8,
        r@[1] == (v / 256) as u8,
{
    let mut bytes: Vec<u8> = Vec::new();
    byteorder::WriteBytesExt::write_u16::<byteorder::LittleEndian>(&mut bytes, v).unwrap();
    bytes
}

/// A serialized word with the +2 shift removed, wrapping like the 16-bit
/// cast the format implies.
pub open spec fn unshift_word(w: u16) -> u16 {
    if w >= 2 {
        (w - 2) as u16
    } else {
        (w + 65534) as u16
    }
}

/// The 16 bytes encoded by 8 serialized UUID words: each word unshifted,
/// split little-endian, then the whole buffer reversed.
pub open spec fn uuid_bytes_of_words(ws: Seq<u16>) -> Seq<u8> {
    Seq::new(
        16,
        |i: int|
            {
                let j = 15 - i;
                if j % 2 == 0 {
                    (unshift_word(ws[j / 2]) % 256) as u8
                } else {
                    (unshift_word(ws[j / 2]) / 256) as u8
                }
            },
    )
}

/// Whether `bytes` is one of the serialized-format UUIDs this reader
/// accepts.
pub open spec fn uuid_supported(bytes: Seq<u8>) -> bool {
    ||| uuid_parse("33761B2D-78BB-4A43-8B0B-4F5BEE8AACF3"@) == Some(bytes)
    ||| uuid_parse("1DA0C57D-6C06-438A-9B27-10BCB3CE0F61"@) == Some(bytes)
    ||| uuid_parse("AADB8D7E-AEEF-4415-AD2B-8204D6CF042E"@) == Some(bytes)
    ||| uuid_parse("59627784-3BE5-417A-B9EB-8131A7286089"@) == Some(bytes)
}

/// The serialized words (already carrying the +2 shift) of the newest
/// supported format UUID, for writers.
pub fn supported_uuid_words() -> (r: Vec<u16>)
{
    let parsed = parse_uuid_str("59627784-3BE5-417A-B9EB-8131A7286089");
    let mut out: Vec<u16> = Vec::new();
    match parsed {
        Some(bytes) => {
            if bytes.len() == 16 {
                let mut k: usize = 0;
                while k < 8
                    invariant
                        bytes@.len() == 16,
                        k <= 8,
                    decreases 8 - k,
                {
                    let lo = bytes[15 - 2 * k] as u16;
                    let hi = bytes[14 - 2 * k] as u16;
                    let w = lo + 256 * hi;
                    let raw: u16 = if w <= 65533 {
                        w + 2
                    } else {
                        w - 65534
                    };
                    out.push(raw);
                    k += 1;
                }
            }
        },
        None => {},
    }
    out
}

/// Options honoured while reading a serialized network.
pub struct ATNDeserializationOptions {
    pub verify_atn: bool,
    pub generate_rule_bypass_transitions: bool,
}

impl Default for ATNDeserializationOptions {
    fn default() -> (r: ATNDeserializationOptions)
        ensures
            r.verify_atn == true,
            r.generate_rule_bypass_transitions == false,
    {
        ATNDeserializationOptions { verify_atn: true, generate_rule_bypass_transitions: false }
    }
}

/// Reads serialized networks.
pub struct ATNDeserializer {
    pub deserialization_options: ATNDeserializationOptions,
}

/// Reads one code unit and removes the +2 shift.
fn read_word(data: &Vec<u16>, pos: &mut usize) -> (r: Result<isize, ANTLRError>)
    ensures
        match r {
            Result::Ok(v) => *old(pos) < data@.len() && *final(pos) == *old(pos) + 1 && v == data@[*old(
                pos,
            ) as int] as isize - 2 && -2 <= v <= 65533,
            Result::Err(_) => *final(pos) == *old(pos),
        },
{
    if *pos < data.len() {
        let v = data[*pos] as isize - 2;
        *pos = *pos + 1;
        Ok(v)
    } else {
        Err(ANTLRError::IllegalStateError("serialized data ended early".to_string()))
    }
}

/// Reads one code unit as a signed value: 0xFFFF stands for -1.
fn read_signed(data: &Vec<u16>, pos: &mut usize) -> (r: Result<isize, ANTLRError>)
    ensures
        match r {
            Result::Ok(v) => *old(pos) < data@.len() && *final(pos) == *old(pos) + 1 && -2 <= v
                <= 65532,
            Result::Err(_) => *final(pos) == *old(pos),
        },
{
    let v = read_word(data, pos)?;
    if v == 0xFFFF - 2 {
        Ok(-1)
    } else {
        Ok(v)
    }
}

/// Reads one code unit as a state or table index: it must be non-negative.
fn read_index(data: &Vec<u16>, pos: &mut usize) -> (r: Result<usize, ANTLRError>)
    ensures
        match r {
            Result::Ok(v) => *old(pos) < data@.len() && *final(pos) == *old(pos) + 1 && v <= 65533,
            Result::Err(_) => true,
        },
{
    let v = read_word(data, pos)?;
    if v < 0 {
        return Err(ANTLRError::IllegalStateError("negative index in serialized data".to_string()));
    }
    Ok(v as usize)
}

/// Compares two byte strings.
fn bytes_equal(a: &Vec<u8>, b: &Vec<u8>) -> (r: bool)
    ensures
        r == (a@ =~= b@),
{
    let n = a.len();
    if b.len() != n {
        return false;
    }
    let mut i: usize = 0;
    while i < n
        invariant
            n == a@.len(),
            n == b@.len(),
            0 <= i <= n,
            forall|k: int| 0 <= k < i ==> (#[trigger] a@[k]) == b@[k],
        decreases n - i,
    {
        if a[i] != b[i] {
            return false;
        }
        i += 1;
    }
    proof {
        assert(a@ =~= b@);
    }
    true
}

impl ATNDeserializer {
    pub fn new(options: Option<ATNDeserializationOptions>) -> (r: ATNDeserializer)
        ensures
            options matches Option::Some(o) ==> r.deserialization_options == o,
            options is None ==> r.deserialization_options.verify_atn == true,
    {
        ATNDeserializer {
            deserialization_options: match options {
                Some(o) => o,
                None => ATNDeserializationOptions::default(),
            },
        }
    }

    /// Checks the leading, unshifted version word.
    fn check_version(&self, data: &Vec<u16>, pos: &mut usize) -> (r: Result<(), ANTLRError>)
        ensures
            match r {
                Result::Ok(_) => *old(pos) < data@.len() && *final(pos) == *old(pos) + 1 && data@[*old(
                    pos,
                ) as int] == SERIALIZED_VERSION,
                Result::Err(_) => true,
            },
    {
        let v = read_word(data, pos)?;
        if v + 2 != SERIALIZED_VERSION {
            return Err(
                ANTLRError::IllegalStateError("unsupported serialized version".to_string()),
            );
        }
        Ok(())
    }

    /// Reads the 8 UUID words and accepts only a supported format UUID.
    fn check_uuid(&self, data: &Vec<u16>, pos: &mut usize) -> (r: Result<(), ANTLRError>)
        ensures
            r is Ok ==> uuid_supported(
                uuid_bytes_of_words(data@.subrange(*old(pos) as int, *old(pos) + 8)),
            ) && *old(pos) + 8 <= data@.len() && *final(pos) == *old(pos) + 8,
    {
        let ghost start = *pos as int;
        let mut bytes: Vec<u8> = Vec::new();
        let mut i: usize = 0;
        while i < 8
            invariant
                start == *old(pos),
                0 <= i <= 8,
                *pos == *old(pos) + i,
                i > 0 ==> *old(pos) + i <= data@.len(),
                bytes@.len() == 2 * i,
                forall|k: int|
                    0 <= k < 2 * i ==> (#[trigger] bytes@[k]) == (
                    if k % 2 == 0 {
                        (unshift_word(data@[start + k / 2]) % 256) as u8
                    } else {
                        (unshift_word(data@[start + k / 2]) / 256) as u8
                    }),
            decreases 8 - i,
        {
            if *pos >= data.len() {
                return Err(
                    ANTLRError::IllegalStateError("serialized data ended early".to_string()),
                );
            }
            let raw = data[*pos];
            *pos = *pos + 1;
            let w: u16 = if raw >= 2 {
                raw - 2
            } else {
                raw + 65534
            };
            let two = u16_le_bytes(w);
            let b0 = two[0];
            let b1 = two[1];
            bytes.push(b0);
            bytes.push(b1);
            i += 1;
            proof {
                assert forall|k: int|
                    0 <= k < 2 * i implies (#[trigger] bytes@[k]) == (
                    if k % 2 == 0 {
                        (unshift_word(data@[start + k / 2]) % 256) as u8
                    } else {
                        (unshift_word(data@[start + k / 2]) / 256) as u8
                    }) by {
                    if k < 2 * (i - 1) {
                    } else if k == 2 * (i - 1) {
                        assert(k / 2 == i - 1);
                        assert(k % 2 == 0);
                        assert(bytes@[k] == b0);
                        assert(w == unshift_word(data@[start + k / 2]));
                    } else {
                        assert(k == 2 * (i - 1) + 1);
                        assert(k / 2 == i - 1);
                        assert(k % 2 == 1);
                        assert(bytes@[k] == b1);
                        assert(w == unshift_word(data@[start + k / 2]));
                    }
                }
            }
        }
        // reverse the 16 bytes
        let mut rev: Vec<u8> = Vec::new();
        let mut j: usize = 0;
        while j < 16
            invariant
                0 <= j <= 16,
                bytes@.len() == 16,
                rev@.len() == j,
                forall|k: int| 0 <= k < j ==> (#[trigger] rev@[k]) == bytes@[15 - k],
            decreases 16 - j,
        {
            let b = bytes[16 - 1 - j];
            rev.push(b);
            j += 1;
        }
        proof {
            let ws = data@.subrange(start, start + 8);
            assert forall|k: int|
                0 <= k < 16 implies rev@[k] == uuid_bytes_of_words(ws)[k] by {
                assert(rev@[k] == bytes@[15 - k]);
                let j = 15 - k;
                assert(ws[j / 2] == data@[start + j / 2]);
                assert(bytes@[j] == (if j % 2 == 0 {
                    (unshift_word(data@[start + j / 2]) % 256) as u8
                } else {
                    (unshift_word(data@[start + j / 2]) / 256) as u8
                }));
            }
            assert(rev@ =~= uuid_bytes_of_words(ws));
        }
        let supported = self.supported_uuid_match(&rev);
        if supported {
            Ok(())
        } else {
            Err(ANTLRError::IllegalStateError("unsupported serialized UUID".to_string()))
        }
    }

    /// Whether `bytes` equals the parse of one of the supported UUID
    /// constants.
    fn supported_uuid_match(&self, bytes: &Vec<u8>) -> (r: bool)
        ensures
            r == uuid_supported(bytes@),
    {
        let mut found = false;
        let c1 = parse_uuid_str("33761B2D-78BB-4A43-8B0B-4F5BEE8AACF3");
        match c1 {
            Some(v) => {
                if bytes_equal(&v, bytes) {
                    proof {
                        assert(uuid_parse("33761B2D-78BB-4A43-8B0B-4F5BEE8AACF3"@) == Some(
                            bytes@,
                        ));
                    }
                    found = true;
                }
            },
            None => {},
        }
        let c2 = parse_uuid_str("1DA0C57D-6C06-438A-9B27-10BCB3CE0F61");
        match c2 {
            Some(v) => {
                if bytes_equal(&v, bytes) {
                    found = true;
                }
            },
            None => {},
        }
        let c3 = parse_uuid_str("AADB8D7E-AEEF-4415-AD2B-8204D6CF042E");
        match c3 {
            Some(v) => {
                if bytes_equal(&v, bytes) {
                    found = true;
                }
            },
            None => {},
        }
        let c4 = parse_uuid_str("59627784-3BE5-417A-B9EB-8131A7286089");
        match c4 {
            Some(v) => {
                if bytes_equal(&v, bytes) {
                    found = true;
                }
            },
            None => {},
        }
        found
    }
}

/// Replaces the kind tag of one state, leaving everything else as it is.
fn set_state_type(sts: &mut Vec<BaseATNState>, idx: usize, t: ATNStateType)
    requires
        idx < old(sts)@.len(),
    ensures
        final(sts)@.len() == old(sts)@.len(),
        forall|k: int|
            0 <= k < old(sts)@.len() && k != idx ==> (#[trigger] final(sts)@[k]) == old(sts)@[k],
        final(sts)@[idx as int].state_number == old(sts)@[idx as int].state_number,
        final(sts)@[idx as int].rule_index == old(sts)@[idx as int].rule_index,
        final(sts)@[idx as int].state_type_id == old(sts)@[idx as int].state_type_id,
        final(sts)@[idx as int].transitions == old(sts)@[idx as int].transitions,
        final(sts)@[idx as int].epsilon_only_transitions == old(sts)@[idx as int].epsilon_only_transitions,
        final(sts)@[idx as int].state_type == t,
        crate::atn::states_ok(old(sts)@) ==> crate::atn::states_ok(final(sts)@),
{
    let st = &mut sts[idx];
    st.state_type = t;
    proof {
        if crate::atn::states_ok(old(sts)@) {
            let n = sts@.len() as int;
            assert forall|i: int| 0 <= i < n implies {
                &&& (#[trigger] sts@[i]).state_number == i
                &&& sts@[i].transitions_wf(n)
                &&& sts@[i].epsilon_flag_ok()
            } by {
                if i != idx {
                    assert(sts@[i] == old(sts)@[i]);
                    assert(old(sts)@[i].state_number == i);
                    assert(old(sts)@[i].transitions_wf(n));
                    assert(old(sts)@[i].epsilon_flag_ok());
                } else {
                    let ne = sts@[i];
                    let oe = old(sts)@[i];
                    assert(oe.state_number == i);
                    assert(oe.transitions_wf(n));
                    assert(oe.epsilon_flag_ok());
                    assert(ne.transitions@ == oe.transitions@);
                    assert forall|q: int|
                        0 <= q < ne.transitions@.len() implies (#[trigger] ne.transitions@[q]).wf(
                        n,
                    ) by {
                        assert(oe.transitions@[q].wf(n));
                    }
                }
            }
        }
    }
}

/// Appends a transition to one state, leaving everything else as it is.
fn add_state_transition(sts: &mut Vec<BaseATNState>, idx: usize, t: Transition)
    requires
        idx < old(sts)@.len(),
        t.wf(old(sts)@.len() as int),
        crate::atn::states_ok(old(sts)@),
    ensures
        final(sts)@.len() == old(sts)@.len(),
        forall|k: int|
            0 <= k < old(sts)@.len() && k != idx ==> (#[trigger] final(sts)@[k]) == old(sts)@[k],
        final(sts)@[idx as int].state_number == old(sts)@[idx as int].state_number,
        final(sts)@[idx as int].rule_index == old(sts)@[idx as int].rule_index,
        final(sts)@[idx as int].state_type == old(sts)@[idx as int].state_type,
        final(sts)@[idx as int].transitions@ == old(sts)@[idx as int].transitions@.push(t),
        crate::atn::states_ok(final(sts)@),
{
    let st = &mut sts[idx];
    st.add_transition(t);
    proof {
        let n = sts@.len() as int;
        assert forall|i: int| 0 <= i < n implies {
            &&& (#[trigger] sts@[i]).state_number == i
            &&& sts@[i].transitions_wf(n)
            &&& sts@[i].epsilon_flag_ok()
        } by {
            if i != idx {
                assert(sts@[i] == old(sts)@[i]);
                assert(old(sts)@[i].state_number == i);
                assert(old(sts)@[i].transitions_wf(n));
                assert(old(sts)@[i].epsilon_flag_ok());
            } else {
                assert(old(sts)@[i].state_number == i);
                assert(old(sts)@[i].epsilon_flag_ok());
                assert(old(sts)@[i].transitions_wf(n));
                let ts = sts@[i].transitions@;
                assert forall|q: int| 0 <= q < ts.len() implies (#[trigger] ts[q]).wf(n) by {
                    if q < ts.len() - 1 {
                        assert(ts[q] == old(sts)@[i].transitions@[q]);
                    } else {
                        assert(ts[q] == t);
                    }
                }
            }
        }
    }
}

impl ATNDeserializer {
    /// Builds a fresh state of the serialized kind; the kind-specific link
    /// fields start empty and are filled from the words that follow.
    fn state_factory(&self, type_index: isize, rule_index: isize, state_number: usize) -> (r:
        Result<BaseATNState, ANTLRError>)
        ensures
            r matches Ok(st) ==> st.state_number == state_number && st.rule_index == rule_index
                && st.transitions@.len() == 0 && st.epsilon_flag_ok() && st.state_type_id
                == type_index,
            // each kind word yields its kind, with empty link fields
            r matches Ok(st) ==> st.state_type == (if type_index == ATNSTATE_BASIC {
                ATNStateType::BasicState
            } else if type_index == ATNSTATE_RULE_START {
                ATNStateType::RuleStartState { stop_state: 0, is_left_recursive: false }
            } else if type_index == ATNSTATE_BLOCK_START {
                ATNStateType::DecisionState {
                    decision: (-1) as isize,
                    nongreedy: false,
                    state: ATNDecisionState::BlockStartState {
                        end_state: 0,
                        en: ATNBlockStart::BasicBlockStart,
                    },
                }
            } else if type_index == ATNSTATE_PLUS_BLOCK_START {
                ATNStateType::DecisionState {
                    decision: (-1) as isize,
                    nongreedy: false,
                    state: ATNDecisionState::BlockStartState {
                        end_state: 0,
                        en: ATNBlockStart::PlusBlockStart(0),
                    },
                }
            } else if type_index == ATNSTATE_STAR_BLOCK_START {
                ATNStateType::DecisionState {
                    decision: (-1) as isize,
                    nongreedy: false,
                    state: ATNDecisionState::BlockStartState {
                        end_state: 0,
                        en: ATNBlockStart::StarBlockStart,
                    },
                }
            } else if type_index == ATNSTATE_TOKEN_START {
                ATNStateType::DecisionState {
                    decision: (-1) as isize,
                    nongreedy: false,
                    state: ATNDecisionState::TokenStartState,
                }
            } else if type_index == ATNSTATE_RULE_STOP {
                ATNStateType::RuleStopState
            } else if type_index == ATNSTATE_BLOCK_END {
                ATNStateType::BlockEndState(0)
            } else if type_index == ATNSTATE_STAR_LOOP_BACK {
                ATNStateType::StarLoopbackState
            } else if type_index == ATNSTATE_STAR_LOOP_ENTRY {
                ATNStateType::DecisionState {
                    decision: (-1) as isize,
                    nongreedy: false,
                    state: ATNDecisionState::StarLoopEntry {
                        loop_back_state: 0,
                        is_precedence: false,
                    },
                }
            } else if type_index == ATNSTATE_PLUS_LOOP_BACK {
                ATNStateType::DecisionState {
                    decision: (-1) as isize,
                    nongreedy: false,
                    state: ATNDecisionState::PlusLoopBack,
                }
            } else {
                ATNStateType::LoopEndState(0)
            }),
            // only the known kind words are accepted
            r is Ok <==> (ATNSTATE_BASIC <= type_index <= ATNSTATE_LOOP_END),
    {
        let state_type: ATNStateType = if type_index == ATNSTATE_BASIC {
            ATNStateType::BasicState
        } else if type_index == ATNSTATE_RULE_START {
            ATNStateType::RuleStartState { stop_state: 0, is_left_recursive: false }
        } else if type_index == ATNSTATE_BLOCK_START {
            ATNStateType::DecisionState {
                decision: -1,
                nongreedy: false,
                state: ATNDecisionState::BlockStartState {
                    end_state: 0,
                    en: ATNBlockStart::BasicBlockStart,
                },
            }
        } else if type_index == ATNSTATE_PLUS_BLOCK_START {
            ATNStateType::DecisionState {
                decision: -1,
                nongreedy: false,
                state: ATNDecisionState::BlockStartState {
                    end_state: 0,
                    en: ATNBlockStart::PlusBlockStart(0),
                },
            }
        } else if type_index == ATNSTATE_STAR_BLOCK_START {
            ATNStateType::DecisionState {
                decision: -1,
                nongreedy: false,
                state: ATNDecisionState::BlockStartState {
                    end_state: 0,
                    en: ATNBlockStart::StarBlockStart,
                },
            }
        } else if type_index == ATNSTATE_TOKEN_START {
            ATNStateType::DecisionState {
                decision: -1,
                nongreedy: false,
                state: ATNDecisionState::TokenStartState,
            }
        } else if type_index == ATNSTATE_RULE_STOP {
            ATNStateType::RuleStopState
        } else if type_index == ATNSTATE_BLOCK_END {
            ATNStateType::BlockEndState(0)
        } else if type_index == ATNSTATE_STAR_LOOP_BACK {
            ATNStateType::StarLoopbackState
        } else if type_index == ATNSTATE_STAR_LOOP_ENTRY {
            ATNStateType::DecisionState {
                decision: -1,
                nongreedy: false,
                state: ATNDecisionState::StarLoopEntry {
                    loop_back_state: 0,
                    is_precedence: false,
                },
            }
        } else if type_index == ATNSTATE_PLUS_LOOP_BACK {
            ATNStateType::DecisionState {
                decision: -1,
                nongreedy: false,
                state: ATNDecisionState::PlusLoopBack,
            }
        } else if type_index == ATNSTATE_LOOP_END {
            ATNStateType::LoopEndState(0)
        } else {
            return Err(ANTLRError::IllegalStateError("invalid serialized state kind".to_string()));
        };
        let mut st = BaseATNState::new_base_atnstate();
        st.state_number = state_number;
        st.rule_index = rule_index;
        st.state_type_id = type_index;
        st.state_type = state_type;
        Ok(st)
    }

    /// Reads the state table: kind and rule per state, the kind-specific
    /// extras, then the non-greedy and precedence (left-recursive) lists,
    /// which are written back into the named states.
    #[verifier::loop_isolation(false)]
    fn read_states(&self, data: &Vec<u16>, pos: &mut usize) -> (r: Result<
        Vec<BaseATNState>,
        ANTLRError,
    >)
        ensures
            r matches Ok(ss) ==> crate::atn::states_ok(ss@) && ss@.len() <= 65534,
    {
        let nstates = read_index(data, pos)?;
        let mut sts: Vec<BaseATNState> = Vec::new();
        let mut i: usize = 0;
        while i < nstates
            invariant
                0 <= i <= nstates,
                sts@.len() == i,
                forall|k: int|
                    0 <= k < i ==> (#[trigger] sts@[k]).state_number == k && sts@[k].transitions@.len()
                        == 0 && sts@[k].epsilon_flag_ok(),
            decreases nstates - i,
        {
            let state_type_word = read_word(data, pos)?;
            if state_type_word == ATNSTATE_INVALID_TYPE {
                return Err(
                    ANTLRError::IllegalStateError("invalid state in serialized data".to_string()),
                );
            }
            let rule_index = read_signed(data, pos)?;
            let mut st = self.state_factory(state_type_word, rule_index, i)?;
            // kind-specific extras: the block end state or the loop-back state
            if state_type_word == ATNSTATE_BLOCK_START || state_type_word
                == ATNSTATE_PLUS_BLOCK_START || state_type_word == ATNSTATE_STAR_BLOCK_START {
                let end_state = read_index(data, pos)?;
                let cur = st.state_type;
                match cur {
                    ATNStateType::DecisionState {
                        decision,
                        nongreedy,
                        state: ATNDecisionState::BlockStartState { end_state: _, en },
                    } => {
                        st.state_type = ATNStateType::DecisionState {
                            decision,
                            nongreedy,
                            state: ATNDecisionState::BlockStartState { end_state, en },
                        };
                    },
                    _ => {},
                }
            } else if state_type_word == ATNSTATE_LOOP_END {
                let loop_back = read_index(data, pos)?;
                st.state_type = ATNStateType::LoopEndState(loop_back);
            }
            sts.push(st);
            i += 1;
        }
        proof {
            assert(crate::atn::states_ok(sts@)) by {
                assert forall|k: int| 0 <= k < sts@.len() implies (
                #[trigger] sts@[k]).transitions_wf(sts@.len() as int) by {
                    assert(sts@[k].transitions@.len() == 0);
                }
            }
        }
        // the non-greedy decisions
        let num_non_greedy = read_index(data, pos)?;
        let mut k: usize = 0;
        while k < num_non_greedy
            invariant
                crate::atn::states_ok(sts@),
                sts@.len() == nstates,
            decreases num_non_greedy - k,
        {
            let s_idx = read_index(data, pos)?;
            if s_idx >= sts.len() {
                return Err(
                    ANTLRError::IllegalStateError("non-greedy state out of range".to_string()),
                );
            }
            let cur = sts[s_idx].state_type;
            match cur {
                ATNStateType::DecisionState { decision, nongreedy: _, state } => {
                    set_state_type(
                        &mut sts,
                        s_idx,
                        ATNStateType::DecisionState { decision, nongreedy: true, state },
                    );
                },
                _ => {},
            }
            k += 1;
        }
        // the left-recursive (precedence) rule start states
        let num_precedence = read_index(data, pos)?;
        let mut k2: usize = 0;
        while k2 < num_precedence
            invariant
                crate::atn::states_ok(sts@),
                sts@.len() == nstates,
            decreases num_precedence - k2,
        {
            let s_idx = read_index(data, pos)?;
            if s_idx >= sts.len() {
                return Err(
                    ANTLRError::IllegalStateError("precedence state out of range".to_string()),
                );
            }
            let cur = sts[s_idx].state_type;
            match cur {
                ATNStateType::RuleStartState { stop_state, is_left_recursive: _ } => {
                    set_state_type(
                        &mut sts,
                        s_idx,
                        ATNStateType::RuleStartState { stop_state, is_left_recursive: true },
                    );
                },
                _ => {},
            }
            k2 += 1;
        }
        Ok(sts)
    }

    /// Reads the rule table: each rule's start state (and, for a lexer, its
    /// token type), then back-links every rule-stop state into the stop
    /// table and its rule's start state.
    #[verifier::loop_isolation(false)]
    fn read_rules(
        &self,
        data: &Vec<u16>,
        pos: &mut usize,
        sts: &mut Vec<BaseATNState>,
        grammar_type: ATNType,
    ) -> (r: Result<(Vec<usize>, Vec<usize>, Vec<isize>), ANTLRError>)
        requires
            crate::atn::states_ok(old(sts)@),
        ensures
            crate::atn::states_ok(final(sts)@),
            final(sts)@.len() == old(sts)@.len(),
            r matches Ok(t) ==> {
                &&& forall|i: int|
                    0 <= i < t.0@.len() ==> (#[trigger] t.0@[i]) < final(sts)@.len()
                &&& forall|i: int|
                    0 <= i < t.1@.len() ==> (#[trigger] t.1@[i]) < final(sts)@.len()
                &&& t.1@.len() == t.0@.len()
                &&& (grammar_type == ATNType::LEXER ==> t.2@.len() == t.0@.len())
                &&& (grammar_type == ATNType::LEXER ==> forall|i: int|
                    0 <= i < final(sts)@.len() && (#[trigger] final(sts)@[i]).state_type
                        == ATNStateType::RuleStopState ==> 0 <= final(sts)@[i].rule_index < t.2@.len())
            },
    {
        let nrules = read_index(data, pos)?;
        let mut rule_to_start_state: Vec<usize> = Vec::new();
        let mut rule_to_token_type: Vec<isize> = Vec::new();
        let mut i: usize = 0;
        while i < nrules
            invariant
                0 <= i <= nrules,
                crate::atn::states_ok(sts@),
                sts@.len() == old(sts)@.len(),
                rule_to_start_state@.len() == i,
                forall|k: int|
                    0 <= k < i ==> (#[trigger] rule_to_start_state@[k]) < sts@.len(),
                grammar_type == ATNType::LEXER ==> rule_to_token_type@.len() == i,
                grammar_type != ATNType::LEXER ==> rule_to_token_type@.len() == 0,
            decreases nrules - i,
        {
            let s = read_index(data, pos)?;
            if s >= sts.len() {
                return Err(
                    ANTLRError::IllegalStateError("rule start state out of range".to_string()),
                );
            }
            rule_to_start_state.push(s);
            if grammar_type == ATNType::LEXER {
                let token_type = read_signed(data, pos)?;
                rule_to_token_type.push(token_type);
            }
            i += 1;
        }
        // back-link the rule stop states
        let mut rule_to_stop_state: Vec<usize> = Vec::new();
        let mut z: usize = 0;
        while z < nrules
            invariant
                rule_to_stop_state@.len() == z,
                0 <= z <= nrules,
                forall|k: int| 0 <= k < z ==> (#[trigger] rule_to_stop_state@[k]) == 0,
            decreases nrules - z,
        {
            rule_to_stop_state.push(0);
            z += 1;
        }
        let n = sts.len();
        let mut j: usize = 0;
        while j < n
            invariant
                0 <= j <= n,
                n == sts@.len(),
                sts@.len() == old(sts)@.len(),
                crate::atn::states_ok(sts@),
                rule_to_stop_state@.len() == nrules,
                rule_to_start_state@.len() == nrules,
                grammar_type == ATNType::LEXER ==> rule_to_token_type@.len() == nrules,
                forall|k: int|
                    0 <= k < nrules ==> (#[trigger] rule_to_stop_state@[k]) < n || rule_to_stop_state@[k]
                        == 0,
                forall|k: int|
                    0 <= k < rule_to_start_state@.len() ==> (#[trigger] rule_to_start_state@[k])
                        < n,
                forall|i2: int|
                    0 <= i2 < j && (#[trigger] sts@[i2]).state_type
                        == ATNStateType::RuleStopState ==> 0 <= sts@[i2].rule_index < nrules,
            decreases n - j,
        {
            let is_stop = match sts[j].state_type {
                ATNStateType::RuleStopState => true,
                _ => false,
            };
            if is_stop {
                let ri = sts[j].rule_index;
                if ri < 0 || ri as usize >= nrules {
                    return Err(
                        ANTLRError::IllegalStateError("rule stop outside rule table".to_string()),
                    );
                }
                let riu = ri as usize;
                rule_to_stop_state.set(riu, j);
                let start = rule_to_start_state[riu];
                let cur = sts[start].state_type;
                match cur {
                    ATNStateType::RuleStartState { stop_state: _, is_left_recursive } => {
                        set_state_type(
                            sts,
                            start,
                            ATNStateType::RuleStartState { stop_state: j, is_left_recursive },
                        );
                    },
                    _ => {},
                }
            }
            j += 1;
            proof {
                assert forall|i2: int|
                    0 <= i2 < j && (#[trigger] sts@[i2]).state_type
                        == ATNStateType::RuleStopState implies 0 <= sts@[i2].rule_index < nrules by {
                }
            }
        }
        proof {
            if nrules > 0 {
                assert(rule_to_start_state@[0] < sts@.len());
            }
        }
        // every rule-stop state has been checked against the rule table
        Ok((rule_to_start_state, rule_to_stop_state, rule_to_token_type))
    }

    /// Reads the lexer mode table.
    #[verifier::loop_isolation(false)]
    fn read_modes(&self, data: &Vec<u16>, pos: &mut usize, nstates: usize) -> (r: Result<
        Vec<usize>,
        ANTLRError,
    >)
        ensures
            r matches Ok(ms) ==> forall|i: int| 0 <= i < ms@.len() ==> (#[trigger] ms@[i]) < nstates,
    {
        let nmodes = read_index(data, pos)?;
        let mut modes: Vec<usize> = Vec::new();
        let mut i: usize = 0;
        while i < nmodes
            invariant
                0 <= i <= nmodes,
                forall|k: int| 0 <= k < modes@.len() ==> (#[trigger] modes@[k]) < nstates,
            decreases nmodes - i,
        {
            let s = read_index(data, pos)?;
            if s >= nstates {
                return Err(
                    ANTLRError::IllegalStateError("mode start state out of range".to_string()),
                );
            }
            modes.push(s);
            i += 1;
        }
        Ok(modes)
    }

    /// Reads one interval-set table and appends the sets; character values
    /// are one word wide, or two (low then high) when `wide` is set.
    #[verifier::loop_isolation(false)]
    fn read_sets(&self, data: &Vec<u16>, pos: &mut usize, sets: &mut Vec<IntervalSet>, wide: bool)
        -> (r: Result<(), ANTLRError>)
        requires
            forall|i: int| 0 <= i < old(sets)@.len() ==> (#[trigger] old(sets)@[i]).inv(),
        ensures
            forall|i: int| 0 <= i < final(sets)@.len() ==> (#[trigger] final(sets)@[i]).inv(),
    {
        let nsets = read_index(data, pos)?;
        let mut i: usize = 0;
        while i < nsets
            invariant
                forall|k: int| 0 <= k < sets@.len() ==> (#[trigger] sets@[k]).inv(),
            decreases nsets - i,
        {
            let nintervals = read_index(data, pos)?;
            let mut set = IntervalSet::new();
            let contains_eof = read_word(data, pos)?;
            if contains_eof != 0 {
                set.add_one(-1);
            }
            let mut j: usize = 0;
            while j < nintervals
                invariant
                    set.inv(),
                    !set.is_read_only(),
                decreases nintervals - j,
            {
                let a = self.read_unicode(data, pos, wide)?;
                let b = self.read_unicode(data, pos, wide)?;
                if a <= b {
                    set.add_range(a, b);
                }
                j += 1;
            }
            sets.push(set);
            i += 1;
        }
        Ok(())
    }

    /// Reads one character value: one word, or a low and a high word
    /// combined, matching how the serializer split large code points.
    fn read_unicode(&self, data: &Vec<u16>, pos: &mut usize, wide: bool) -> (r: Result<
        isize,
        ANTLRError,
    >)
        ensures
            r matches Ok(v) ==> -2 <= v <= 2147418110,
    {
        let v1 = read_word(data, pos)?;
        if !wide {
            Ok(v1)
        } else {
            let low = if v1 >= 0 {
                v1
            } else {
                v1 + 65536
            };
            let v2 = read_word(data, pos)?;
            if v2 < 0 || v2 > 32765 {
                return Err(
                    ANTLRError::IllegalStateError("code point out of range".to_string()),
                );
            }
            Ok(low + v2 * 65536)
        }
    }

    /// Resolves one serialized edge tuple into a typed transition. A range
    /// or atom whose third argument is set matches end of input; rule edges
    /// call the state named by the first argument and return to the edge's
    /// target; set edges name an entry of the parsed interval-set tables.
    fn edge_factory(
        &self,
        type_index: isize,
        target: usize,
        arg1: isize,
        arg2: isize,
        arg3: isize,
        sets: &Vec<IntervalSet>,
        nstates: usize,
    ) -> (r: Result<Transition, ANTLRError>)
        requires
            target < nstates,
            forall|i: int| 0 <= i < sets@.len() ==> (#[trigger] sets@[i]).inv(),
        ensures
            r matches Ok(t) ==> t.wf(nstates as int),
            // success exactly on the known kinds whose arguments are in
            // range
            r is Ok <==> (TRANSITION_EPSILON <= type_index <= TRANSITION_PRECEDENCE && (type_index
                == TRANSITION_RULE ==> (0 <= arg1 < nstates && arg2 >= 0)) && ((type_index
                == TRANSITION_SET || type_index == TRANSITION_NOTSET) ==> 0 <= arg1
                < sets@.len())),
            // and each kind maps its arguments to the one transition the
            // format gives it
            r matches Ok(t) ==> t == (if type_index == TRANSITION_EPSILON {
                Transition::Epsilon { target, outermost_precedence_return: 0 as isize }
            } else if type_index == TRANSITION_RANGE {
                Transition::Range {
                    target,
                    start: if arg3 != 0 {
                        TOKEN_EOF
                    } else {
                        arg1
                    },
                    stop: arg2,
                }
            } else if type_index == TRANSITION_RULE {
                Transition::Rule {
                    target: arg1 as usize,
                    follow_state: target,
                    rule_index: arg2 as usize,
                    precedence: arg3,
                }
            } else if type_index == TRANSITION_PREDICATE {
                Transition::Predicate {
                    target,
                    rule_index: arg1,
                    pred_index: arg2,
                    is_ctx_dependent: arg3 != 0,
                }
            } else if type_index == TRANSITION_ATOM {
                Transition::Atom {
                    target,
                    label: if arg3 != 0 {
                        TOKEN_EOF
                    } else {
                        arg1
                    },
                }
            } else if type_index == TRANSITION_ACTION {
                Transition::Action {
                    target,
                    rule_index: arg1,
                    action_index: arg2,
                    is_ctx_dependent: arg3 != 0,
                }
            } else if type_index == TRANSITION_WILDCARD {
                Transition::Wildcard { target }
            } else if type_index == TRANSITION_PRECEDENCE {
                Transition::PrecedencePredicate { target, precedence: arg1 }
            } else {
                t
            }),
            // set and not-set edges carry a copy of the named table entry
            type_index == TRANSITION_SET ==> (r matches Ok(t) ==> (t matches
                Transition::TokenSet { target: t2, set } && t2 == target && set.intervals@
                == sets@[arg1 as int].intervals@)),
            type_index == TRANSITION_NOTSET ==> (r matches Ok(t) ==> (t matches
                Transition::NotTokenSet { target: t2, set } && t2 == target && set.intervals@
                == sets@[arg1 as int].intervals@)),
    {
        if type_index == TRANSITION_EPSILON {
            Ok(Transition::Epsilon { target, outermost_precedence_return: 0 })
        } else if type_index == TRANSITION_RANGE {
            if arg3 != 0 {
                Ok(Transition::Range { target, start: TOKEN_EOF, stop: arg2 })
            } else {
                Ok(Transition::Range { target, start: arg1, stop: arg2 })
            }
        } else if type_index == TRANSITION_RULE {
            if arg1 < 0 || arg1 as usize >= nstates {
                return Err(
                    ANTLRError::IllegalStateError("rule transition out of range".to_string()),
                );
            }
            if arg2 < 0 {
                return Err(
                    ANTLRError::IllegalStateError("negative rule index on edge".to_string()),
                );
            }
            Ok(
                Transition::Rule {
                    target: arg1 as usize,
                    follow_state: target,
                    rule_index: arg2 as usize,
                    precedence: arg3,
                },
            )
        } else if type_index == TRANSITION_PREDICATE {
            Ok(
                Transition::Predicate {
                    target,
                    rule_index: arg1,
                    pred_index: arg2,
                    is_ctx_dependent: arg3 != 0,
                },
            )
        } else if type_index == TRANSITION_ATOM {
            if arg3 != 0 {
                Ok(Transition::Atom { target, label: TOKEN_EOF })
            } else {
                Ok(Transition::Atom { target, label: arg1 })
            }
        } else if type_index == TRANSITION_ACTION {
            Ok(
                Transition::Action {
                    target,
                    rule_index: arg1,
                    action_index: arg2,
                    is_ctx_dependent: arg3 != 0,
                },
            )
        } else if type_index == TRANSITION_SET || type_index == TRANSITION_NOTSET {
            if arg1 < 0 || arg1 as usize >= sets.len() {
                return Err(
                    ANTLRError::IllegalStateError("set reference out of range".to_string()),
                );
            }
            let set = sets[arg1 as usize].deep_clone();
            if type_index == TRANSITION_SET {
                Ok(Transition::TokenSet { target, set })
            } else {
                Ok(Transition::NotTokenSet { target, set })
            }
        } else if type_index == TRANSITION_WILDCARD {
            Ok(Transition::Wildcard { target })
        } else if type_index == TRANSITION_PRECEDENCE {
            Ok(Transition::PrecedencePredicate { target, precedence: arg1 })
        } else {
            Err(ANTLRError::IllegalStateError("invalid transition kind".to_string()))
        }
    }

    /// Reads the edge table, resolving each (src, tgt, kind, a1, a2, a3)
    /// tuple through the factory and attaching it to its source state.
    #[verifier::loop_isolation(false)]
    fn read_edges(
        &self,
        data: &Vec<u16>,
        pos: &mut usize,
        sts: &mut Vec<BaseATNState>,
        sets: &Vec<IntervalSet>,
    ) -> (r: Result<(), ANTLRError>)
        requires
            crate::atn::states_ok(old(sts)@),
            forall|i: int| 0 <= i < sets@.len() ==> (#[trigger] sets@[i]).inv(),
        ensures
            crate::atn::states_ok(final(sts)@),
            final(sts)@.len() == old(sts)@.len(),
            forall|k: int|
                0 <= k < old(sts)@.len() ==> (#[trigger] final(sts)@[k]).state_type == old(
                    sts,
                )@[k].state_type && final(sts)@[k].rule_index == old(sts)@[k].rule_index,
    {
        let nedges = read_index(data, pos)?;
        let n = sts.len();
        let mut e: usize = 0;
        while e < nedges
            invariant
                crate::atn::states_ok(sts@),
                sts@.len() == n,
                forall|k: int|
                    0 <= k < n ==> (#[trigger] sts@[k]).state_type == old(sts)@[k].state_type
                        && sts@[k].rule_index == old(sts)@[k].rule_index,
            decreases nedges - e,
        {
            let src = read_index(data, pos)?;
            let trg = read_index(data, pos)?;
            let ttype = read_word(data, pos)?;
            let arg1 = read_signed(data, pos)?;
            let arg2 = read_signed(data, pos)?;
            let arg3 = read_signed(data, pos)?;
            if src >= n || trg >= n {
                return Err(ANTLRError::IllegalStateError("edge out of range".to_string()));
            }
            let tr = self.edge_factory(ttype, trg, arg1, arg2, arg3, sets, n)?;
            add_state_transition(sts, src, tr);
            e += 1;
        }
        Ok(())
    }

    /// Reads the decision table, recording each decision state and stamping
    /// its decision index into the state.
    #[verifier::loop_isolation(false)]
    fn read_decisions(&self, data: &Vec<u16>, pos: &mut usize, sts: &mut Vec<BaseATNState>) -> (r:
        Result<Vec<usize>, ANTLRError>)
        requires
            crate::atn::states_ok(old(sts)@),
        ensures
            crate::atn::states_ok(final(sts)@),
            final(sts)@.len() == old(sts)@.len(),
            forall|k: int|
                0 <= k < old(sts)@.len() ==> ((#[trigger] final(sts)@[k]).state_type
                    == ATNStateType::RuleStopState <==> old(sts)@[k].state_type
                    == ATNStateType::RuleStopState) && final(sts)@[k].rule_index == old(
                    sts,
                )@[k].rule_index && final(sts)@[k].transitions == old(sts)@[k].transitions,
            r matches Ok(ds) ==> forall|i: int|
                0 <= i < ds@.len() ==> (#[trigger] ds@[i]) < final(sts)@.len(),
            // every named state is a decision state stamped with its index
            r matches Ok(ds) ==> forall|i: int|
                0 <= i < ds@.len() ==> crate::atn_state::spec_decision(
                    final(sts)@[(#[trigger] ds@[i]) as int].state_type,
                ) == Some(i as isize),
    {
        let ndecisions = read_index(data, pos)?;
        let n = sts.len();
        let mut decisions: Vec<usize> = Vec::new();
        let mut i: usize = 0;
        while i < ndecisions
            invariant
                crate::atn::states_ok(sts@),
                sts@.len() == n,
                i == decisions@.len(),
                forall|k: int| 0 <= k < decisions@.len() ==> (#[trigger] decisions@[k]) < n,
                forall|k: int|
                    0 <= k < decisions@.len() ==> crate::atn_state::spec_decision(
                        sts@[(#[trigger] decisions@[k]) as int].state_type,
                    ) == Some(k as isize),
                forall|k: int|
                    0 <= k < n ==> ((#[trigger] sts@[k]).state_type
                        == ATNStateType::RuleStopState <==> old(sts)@[k].state_type
                        == ATNStateType::RuleStopState) && sts@[k].rule_index == old(
                        sts,
                    )@[k].rule_index && sts@[k].transitions == old(sts)@[k].transitions,
            decreases ndecisions - i,
        {
            let s = read_index(data, pos)?;
            if s >= n {
                return Err(ANTLRError::IllegalStateError("decision out of range".to_string()));
            }
            if i > 32767 {
                return Err(ANTLRError::IllegalStateError("too many decisions".to_string()));
            }
            let cur = sts[s].state_type;
            let ghost pre_sts = sts@;
            match cur {
                ATNStateType::DecisionState { decision, nongreedy, state } => {
                    if decision != -1 {
                        return Err(
                            ANTLRError::IllegalStateError(
                                "decision named twice in serialized data".to_string(),
                            ),
                        );
                    }
                    set_state_type(
                        sts,
                        s,
                        ATNStateType::DecisionState { decision: i as isize, nongreedy, state },
                    );
                },
                _ => {
                    return Err(
                        ANTLRError::IllegalStateError(
                            "decision names a state without a decision".to_string(),
                        ),
                    );
                },
            }
            decisions.push(s);
            i += 1;
            proof {
                assert forall|k: int|
                    0 <= k < decisions@.len() implies crate::atn_state::spec_decision(
                    sts@[(#[trigger] decisions@[k]) as int].state_type,
                ) == Some(k as isize) by {
                    if k == decisions@.len() - 1 {
                        assert(decisions@[k] == s);
                    } else {
                        // an earlier stamp cannot name the state stamped
                        // now: that one still carried the fresh marker
                        assert(crate::atn_state::spec_decision(
                            pre_sts[decisions@[k] as int].state_type,
                        ) == Some(k as isize));
                        if decisions@[k] == s {
                            assert(crate::atn_state::spec_decision(pre_sts[s as int].state_type)
                                == Some((-1) as isize));
                            assert(false);
                        }
                        assert(sts@[decisions@[k] as int] == pre_sts[decisions@[k] as int]);
                    }
                }
            }
        }
        Ok(decisions)
    }

    /// Reads the lexer action table.
    #[verifier::loop_isolation(false)]
    fn read_lexer_actions(&self, data: &Vec<u16>, pos: &mut usize) -> (r: Result<
        Vec<LexerAction>,
        ANTLRError,
    >) {
        let nactions = read_index(data, pos)?;
        let mut actions: Vec<LexerAction> = Vec::new();
        let mut i: usize = 0;
        while i < nactions
            decreases nactions - i,
        {
            let action_type = read_word(data, pos)?;
            let data1 = read_signed(data, pos)?;
            let data2 = read_signed(data, pos)?;
            let action: LexerAction = if action_type == LEXER_ACTION_TYPE_CHANNEL {
                LexerAction::Channel(data1)
            } else if action_type == LEXER_ACTION_TYPE_CUSTOM {
                LexerAction::Custom { rule_index: data1, action_index: data2 }
            } else if action_type == LEXER_ACTION_TYPE_MODE {
                LexerAction::Mode(data1)
            } else if action_type == LEXER_ACTION_TYPE_MORE {
                LexerAction::More
            } else if action_type == LEXER_ACTION_TYPE_POP_MODE {
                LexerAction::PopMode
            } else if action_type == LEXER_ACTION_TYPE_PUSH_MODE {
                LexerAction::PushMode(data1)
            } else if action_type == LEXER_ACTION_TYPE_SKIP {
                LexerAction::Skip
            } else if action_type == LEXER_ACTION_TYPE_TYPE {
                LexerAction::TokenType(data1)
            } else {
                return Err(
                    ANTLRError::IllegalStateError("invalid lexer action kind".to_string()),
                );
            };
            actions.push(action);
            i += 1;
        }
        Ok(actions)
    }

    /// Checks that every action edge names an entry of the action table.
    #[verifier::loop_isolation(false)]
    fn validate_action_indices(&self, sts: &Vec<BaseATNState>, nactions: usize) -> (r: Result<
        (),
        ANTLRError,
    >)
        ensures
            r is Ok ==> forall|i: int, t: int|
                0 <= i < sts@.len() && 0 <= t < (#[trigger] sts@[i]).transitions@.len() ==> ((
                #[trigger] sts@[i].transitions@[t]) matches Transition::Action { action_index, .. }
                    ==> 0 <= action_index < nactions),
    {
        let n = sts.len();
        let mut i: usize = 0;
        while i < n
            invariant
                0 <= i <= n,
                forall|k: int, t: int|
                    0 <= k < i && 0 <= t < (#[trigger] sts@[k]).transitions@.len() ==> ((
                    #[trigger] sts@[k].transitions@[t]) matches Transition::Action {
                        action_index,
                        ..
                    } ==> 0 <= action_index < nactions),
            decreases n - i,
        {
            let m = sts[i].transitions.len();
            let mut t: usize = 0;
            while t < m
                invariant
                    0 <= t <= m,
                    m == sts@[i as int].transitions@.len(),
                    i < n,
                    forall|q: int|
                        0 <= q < t ==> ((#[trigger] sts@[i as int].transitions@[q]) matches
                            Transition::Action { action_index, .. } ==> 0 <= action_index
                            < nactions),
                decreases m - t,
            {
                match &sts[i].transitions[t] {
                    Transition::Action { action_index, .. } => {
                        if *action_index < 0 || *action_index as usize >= nactions {
                            return Err(
                                ANTLRError::IllegalStateError(
                                    "lexer action reference out of range".to_string(),
                                ),
                            );
                        }
                    },
                    _ => {},
                }
                t += 1;
            }
            i += 1;
        }
        Ok(())
    }

    /// Writes the derived loop links back into the states: a star-loop
    /// entry learns its loop-back state, and a plus-block start learns the
    /// plus-loop-back state that returns to it.
    #[verifier::loop_isolation(false)]
    fn link_loop_backs(&self, sts: &mut Vec<BaseATNState>)
        requires
            crate::atn::states_ok(old(sts)@),
        ensures
            crate::atn::states_ok(final(sts)@),
            final(sts)@.len() == old(sts)@.len(),
            forall|k: int|
                0 <= k < old(sts)@.len() ==> ((#[trigger] final(sts)@[k]).state_type
                    == ATNStateType::RuleStopState <==> old(sts)@[k].state_type
                    == ATNStateType::RuleStopState) && final(sts)@[k].rule_index == old(
                    sts,
                )@[k].rule_index && final(sts)@[k].transitions == old(sts)@[k].transitions,
            forall|k: int|
                0 <= k < old(sts)@.len() ==> crate::atn_state::spec_decision(
                    (#[trigger] final(sts)@[k]).state_type,
                ) == crate::atn_state::spec_decision(old(sts)@[k].state_type),
    {
        let n = sts.len();
        let mut i: usize = 0;
        while i < n
            invariant
                crate::atn::states_ok(sts@),
                sts@.len() == n,
                0 <= i <= n,
                forall|k: int|
                    0 <= k < n ==> ((#[trigger] sts@[k]).state_type
                        == ATNStateType::RuleStopState <==> old(sts)@[k].state_type
                        == ATNStateType::RuleStopState) && sts@[k].rule_index == old(
                        sts,
                    )@[k].rule_index && sts@[k].transitions == old(sts)@[k].transitions,
                forall|k: int|
                    0 <= k < n ==> crate::atn_state::spec_decision((#[trigger] sts@[k]).state_type)
                        == crate::atn_state::spec_decision(old(sts)@[k].state_type),
            decreases n - i,
        {
            let kind_here = match sts[i].state_type {
                ATNStateType::StarLoopbackState => 1isize,
                ATNStateType::DecisionState { state: ATNDecisionState::PlusLoopBack, .. } => 2isize,
                _ => 0isize,
            };
            if kind_here != 0 {
                // collect this state's targets first, then write the links
                let ntr = sts[i].transitions.len();
                let mut targets: Vec<usize> = Vec::new();
                let mut t: usize = 0;
                while t < ntr
                    invariant
                        i < n,
                        ntr == sts@[i as int].transitions@.len(),
                        0 <= t <= ntr,
                        forall|q: int| 0 <= q < targets@.len() ==> (#[trigger] targets@[q]) < n,
                    decreases ntr - t,
                {
                    proof {
                        assert(sts@[i as int].transitions@[t as int].wf(n as int));
                    }
                    let tr_target = sts[i].transitions[t].get_target();
                    targets.push(tr_target);
                    t += 1;
                }
                let m = targets.len();
                let mut q: usize = 0;
                while q < m
                    invariant
                        i < n,
                        m == targets@.len(),
                        0 <= q <= m,
                        crate::atn::states_ok(sts@),
                        sts@.len() == n,
                        forall|q2: int| 0 <= q2 < m ==> (#[trigger] targets@[q2]) < n,
                        forall|k: int|
                            0 <= k < n ==> ((#[trigger] sts@[k]).state_type
                                == ATNStateType::RuleStopState <==> old(sts)@[k].state_type
                                == ATNStateType::RuleStopState) && sts@[k].rule_index == old(
                                sts,
                            )@[k].rule_index && sts@[k].transitions == old(sts)@[k].transitions,
                        forall|k: int|
                            0 <= k < n ==> crate::atn_state::spec_decision(
                                (#[trigger] sts@[k]).state_type,
                            ) == crate::atn_state::spec_decision(old(sts)@[k].state_type),
                    decreases m - q,
                {
                    let tg = targets[q];
                    let cur = sts[tg].state_type;
                    if kind_here == 1 {
                        match cur {
                            ATNStateType::DecisionState {
                                decision,
                                nongreedy,
                                state: ATNDecisionState::StarLoopEntry {
                                    loop_back_state: _,
                                    is_precedence,
                                },
                            } => {
                                set_state_type(
                                    sts,
                                    tg,
                                    ATNStateType::DecisionState {
                                        decision,
                                        nongreedy,
                                        state: ATNDecisionState::StarLoopEntry {
                                            loop_back_state: i,
                                            is_precedence,
                                        },
                                    },
                                );
                            },
                            _ => {},
                        }
                    } else {
                        match cur {
                            ATNStateType::DecisionState {
                                decision,
                                nongreedy,
                                state: ATNDecisionState::BlockStartState {
                                    end_state,
                                    en: ATNBlockStart::PlusBlockStart(_),
                                },
                            } => {
                                set_state_type(
                                    sts,
                                    tg,
                                    ATNStateType::DecisionState {
                                        decision,
                                        nongreedy,
                                        state: ATNDecisionState::BlockStartState {
                                            end_state,
                                            en: ATNBlockStart::PlusBlockStart(i),
                                        },
                                    },
                                );
                            },
                            _ => {},
                        }
                    }
                    q += 1;
                }
            }
            i += 1;
        }
    }

    /// Marks the star-loop entries of left-recursive rules as precedence
    /// decisions: such an entry's last edge leads to a loop end whose only
    /// way out is the rule's stop state.
    #[verifier::loop_isolation(false)]
    fn mark_precedence_decisions(
        &self,
        sts: &mut Vec<BaseATNState>,
        rule_to_start_state: &Vec<usize>,
    )
        requires
            crate::atn::states_ok(old(sts)@),
            forall|i: int|
                0 <= i < rule_to_start_state@.len() ==> (#[trigger] rule_to_start_state@[i]) < old(
                    sts,
                )@.len(),
        ensures
            crate::atn::states_ok(final(sts)@),
            final(sts)@.len() == old(sts)@.len(),
            forall|k: int|
                0 <= k < old(sts)@.len() ==> ((#[trigger] final(sts)@[k]).state_type
                    == ATNStateType::RuleStopState <==> old(sts)@[k].state_type
                    == ATNStateType::RuleStopState) && final(sts)@[k].rule_index == old(
                    sts,
                )@[k].rule_index && final(sts)@[k].transitions == old(sts)@[k].transitions,
            forall|k: int|
                0 <= k < old(sts)@.len() ==> crate::atn_state::spec_decision(
                    (#[trigger] final(sts)@[k]).state_type,
                ) == crate::atn_state::spec_decision(old(sts)@[k].state_type),
    {
        let n = sts.len();
        let mut i: usize = 0;
        while i < n
            invariant
                crate::atn::states_ok(sts@),
                sts@.len() == n,
                0 <= i <= n,
                forall|k: int|
                    0 <= k < n ==> ((#[trigger] sts@[k]).state_type
                        == ATNStateType::RuleStopState <==> old(sts)@[k].state_type
                        == ATNStateType::RuleStopState) && sts@[k].rule_index == old(
                        sts,
                    )@[k].rule_index && sts@[k].transitions == old(sts)@[k].transitions,
                forall|k: int|
                    0 <= k < n ==> crate::atn_state::spec_decision((#[trigger] sts@[k]).state_type)
                        == crate::atn_state::spec_decision(old(sts)@[k].state_type),
            decreases n - i,
        {
            let cur = sts[i].state_type;
            let is_star_loop_entry = match cur {
                ATNStateType::DecisionState {
                    state: ATNDecisionState::StarLoopEntry { .. },
                    ..
                } => true,
                _ => false,
            };
            if is_star_loop_entry {
                let ri = sts[i].rule_index;
                if ri >= 0 && (ri as usize) < rule_to_start_state.len() {
                    let start = rule_to_start_state[ri as usize];
                    let left_recursive = match sts[start].state_type {
                        ATNStateType::RuleStartState { is_left_recursive, .. } => is_left_recursive,
                        _ => false,
                    };
                    if left_recursive && sts[i].transitions.len() > 0 {
                        let last = sts[i].transitions.len() - 1;
                        let maybe_loop_end = sts[i].transitions[last].get_target();
                        proof {
                            assert(sts@[i as int].transitions@[last as int].wf(n as int));
                        }
                        let is_loop_end = match sts[maybe_loop_end].state_type {
                            ATNStateType::LoopEndState(_) => true,
                            _ => false,
                        };
                        if is_loop_end && sts[maybe_loop_end].epsilon_only_transitions
                            && sts[maybe_loop_end].transitions.len() > 0 {
                            let out = sts[maybe_loop_end].transitions[0].get_target();
                            proof {
                                assert(sts@[maybe_loop_end as int].transitions@[0].wf(n as int));
                            }
                            let stops = match sts[out].state_type {
                                ATNStateType::RuleStopState => true,
                                _ => false,
                            };
                            if stops {
                                match cur {
                                    ATNStateType::DecisionState {
                                        decision,
                                        nongreedy,
                                        state: ATNDecisionState::StarLoopEntry {
                                            loop_back_state,
                                            is_precedence: _,
                                        },
                                    } => {
                                        set_state_type(
                                            sts,
                                            i,
                                            ATNStateType::DecisionState {
                                                decision,
                                                nongreedy,
                                                state: ATNDecisionState::StarLoopEntry {
                                                    loop_back_state,
                                                    is_precedence: true,
                                                },
                                            },
                                        );
                                    },
                                    _ => {},
                                }
                            }
                        }
                    }
                }
            }
            i += 1;
        }
    }

    /// Reads a whole serialized network. The result is fully linked: every
    /// edge, decision, mode and rule entry points inside the state vector,
    /// and for a lexer every accept rule and action reference is in range.
    #[verifier::loop_isolation(false)]
    pub fn deserialize(&self, data: &Vec<u16>) -> (r: Result<ATN, ANTLRError>)
        ensures
            r matches Ok(atn) ==> {
                &&& atn.wf()
                &&& data@.len() >= 9
                &&& data@[0] == SERIALIZED_VERSION
                &&& uuid_supported(uuid_bytes_of_words(data@.subrange(1, 9)))
            },
    {
        let mut pos: usize = 0;
        self.check_version(data, &mut pos)?;
        self.check_uuid(data, &mut pos)?;
        let grammar_word = read_word(data, &mut pos)?;
        let grammar_type = if grammar_word == 0 {
            ATNType::LEXER
        } else if grammar_word == 1 {
            ATNType::PARSER
        } else {
            return Err(ANTLRError::IllegalStateError("invalid grammar kind".to_string()));
        };
        let max_token_type = read_signed(data, &mut pos)?;
        let mut states = self.read_states(data, &mut pos)?;
        let tables = self.read_rules(data, &mut pos, &mut states, grammar_type)?;
        let (rule_to_start_state, rule_to_stop_state, rule_to_token_type) = tables;
        let modes = self.read_modes(data, &mut pos, states.len())?;
        let mut sets: Vec<IntervalSet> = Vec::new();
        self.read_sets(data, &mut pos, &mut sets, false)?;
        self.read_sets(data, &mut pos, &mut sets, true)?;
        self.read_edges(data, &mut pos, &mut states, &sets)?;
        self.link_loop_backs(&mut states);
        let decisions = self.read_decisions(data, &mut pos, &mut states)?;
        let ghost s_dec = states@;
        let ghost g_dec_vec = decisions@;
        proof {
            assert forall|i: int|
                0 <= i < g_dec_vec.len() implies crate::atn_state::spec_decision(
                s_dec[(#[trigger] g_dec_vec[i]) as int].state_type,
            ) == Some(i as isize) by {
                assert(g_dec_vec[i] == decisions@[i]);
            }
            assert forall|i: int|
                0 <= i < g_dec_vec.len() implies (#[trigger] g_dec_vec[i]) < s_dec.len() by {
                assert(g_dec_vec[i] == decisions@[i]);
            }
        }
        let lexer_actions: Vec<LexerAction> = if grammar_type == ATNType::LEXER {
            self.read_lexer_actions(data, &mut pos)?
        } else {
            Vec::new()
        };
        if grammar_type == ATNType::LEXER {
            self.validate_action_indices(&states, lexer_actions.len())?;
        }
        let ghost s_rules = states@;
        proof {
            assert(s_rules == states@);
        }
        self.mark_precedence_decisions(&mut states, &rule_to_start_state);
        let atn = ATN {
            decision_to_state: decisions,
            grammar_type,
            lexer_actions,
            max_token_type,
            mode_name_to_start_state: Vec::new(),
            mode_to_start_state: modes,
            rule_to_start_state,
            rule_to_stop_state,
            rule_to_token_type,
            states,
        };
        proof {
            assert(atn.wf()) by {
                assert forall|i: int|
                    0 <= i < atn.decision_to_state@.len() implies crate::atn_state::spec_decision(
                    atn.states@[(#[trigger] atn.decision_to_state@[i]) as int].state_type,
                ) == Some(i as isize) by {
                    assert(atn.decision_to_state@ == g_dec_vec);
                    let ds = atn.decision_to_state@[i] as int;
                    assert(atn.decision_to_state@[i] == g_dec_vec[i]);
                    assert(g_dec_vec[i] < s_dec.len());
                    assert(0 <= ds < s_dec.len() as int);
                    assert(crate::atn_state::spec_decision(s_dec[ds].state_type) == Some(
                        i as isize,
                    ));
                    assert(crate::atn_state::spec_decision(atn.states@[ds].state_type)
                        == crate::atn_state::spec_decision(s_dec[ds].state_type));
                }
                if grammar_type == ATNType::LEXER {
                    assert forall|i: int|
                        0 <= i < atn.states@.len() && (#[trigger] atn.states@[i]).state_type
                            == ATNStateType::RuleStopState implies 0 <= atn.states@[i].rule_index
                        < atn.rule_to_token_type@.len() by {
                        assert(s_rules[i].state_type == ATNStateType::RuleStopState);
                        assert(atn.states@[i].rule_index == s_rules[i].rule_index);
                    }
                    assert forall|i: int, t: int|
                        0 <= i < atn.states@.len() && 0 <= t < (
                        #[trigger] atn.states@[i]).transitions@.len() implies ((
                        #[trigger] atn.states@[i].transitions@[t]) matches Transition::Action {
                            action_index,
                            ..
                        } ==> 0 <= action_index < atn.lexer_actions@.len()) by {
                        assert(atn.states@[i].transitions == s_rules[i].transitions);
                    }
                }
            }
        }
        Ok(atn)
    }
}

} // verus!
