//! Validation of browser-submitted events before they are forwarded to the
//! broker: a sound action or error code, bounded keys and values, and a cap
//! on the whole event's estimated size.

use vstd::prelude::*;
use crate::exception::Exception;
use crate::strfmt::u128_to_string;
use crate::strfmt::spec_dec_digits;
use crate::validate::spec_validation_error;
use vstd::string::StrSliceExecFns;
use vstd::string::StringExecFns;

verus! {

/// Longest accepted key, in characters.
pub const MAX_KEY_LENGTH: usize = 50;

/// Longest accepted context value, in characters.
pub const MAX_CONTEXT_VALUE_LENGTH: usize = 1000;

/// Longest accepted info value, in characters.
pub const MAX_INFO_VALUE_LENGTH: usize = 500000;

/// Cap on an event's estimated size: the broker's message limit, less
/// headroom for the rest of the message.
pub const MAX_ESTIMATED_LENGTH: u128 = 900000;

#[derive(Clone, Copy, PartialEq, Eq, Structural, Debug)]
pub enum EventResult {
    Okay,
    Warn,
    Error,
}

/// One submitted event.  The numeric stat values stay outside the model; only
/// their keys take part in validation.
pub struct Event {
    pub result: EventResult,
    pub action: String,
    pub error_code: Option<String>,
    pub error_message: Option<String>,
    pub context: Vec<(String, String)>,
    pub stat_keys: Vec<String>,
    pub info: Vec<(String, String)>,
    pub elapsed_time: i64,
}

/// Index of the first entry whose key or value is over its bound, or -1.
pub open spec fn spec_map_violation(
    entries: Seq<(String, String)>,
    max_key: int,
    max_value: int,
) -> int
    decreases entries.len(),
{
    if entries.len() == 0 {
        -1
    } else if entries[0].0@.len() > max_key || entries[0].1@.len() > max_value {
        0
    } else {
        let rest = spec_map_violation(entries.drop_first(), max_key, max_value);
        if rest < 0 {
            -1
        } else {
            rest + 1
        }
    }
}

/// The characters a map contributes to the event's estimated size.
pub open spec fn spec_map_estimate(entries: Seq<(String, String)>) -> int
    decreases entries.len(),
{
    if entries.len() == 0 {
        0
    } else {
        spec_map_estimate(entries.drop_last()) + entries.last().0@.len()
            + entries.last().1@.len()
    }
}

/// Index of the first stats key over the bound, or -1.
pub open spec fn spec_keys_violation(keys: Seq<String>, max_key: int) -> int
    decreases keys.len(),
{
    if keys.len() == 0 {
        -1
    } else if keys[0]@.len() > max_key {
        0
    } else {
        let rest = spec_keys_violation(keys.drop_first(), max_key);
        if rest < 0 {
            -1
        } else {
            rest + 1
        }
    }
}

/// The characters the stats contribute: each key plus five characters
/// estimated for its numeric value.
pub open spec fn spec_keys_estimate(keys: Seq<String>) -> int
    decreases keys.len(),
{
    if keys.len() == 0 {
        0
    } else {
        spec_keys_estimate(keys.drop_last()) + keys.last()@.len() + 5
    }
}

/// The first `max_len` characters of `s`.
pub fn truncate(s: &str, max_len: usize) -> (r: &str)
    ensures
        r@ == (if s@.len() > max_len {
            s@.take(max_len as int)
        } else {
            s@
        }),
{
    let n = s.unicode_len();
    if n > max_len {
        s.substring_char(0, max_len)
    } else {
        proof {
            assert(s@.take(n as int) =~= s@);
        }
        s.substring_char(0, n)
    }
}

/// The message of a too-long-key failure.
pub open spec fn spec_key_error(key: Seq<char>) -> Seq<char> {
    "key is too long, key="@ + (if key.len() > 50 {
        key.take(50)
    } else {
        key
    }) + "...(truncated)"@
}

/// The message of a too-long-value failure.
pub open spec fn spec_value_error(key: Seq<char>, value: Seq<char>) -> Seq<char> {
    "value is too long, key="@ + key + ", value="@ + (if value.len() > 200 {
        value.take(200)
    } else {
        value
    }) + "...(truncated)"@
}

impl Event {
    /// Checks one key/value map: every key within `max_key_length`, every
    /// value within `max_value_length`.  Success carries the characters the
    /// map adds to the event's estimated size; the first offence is reported,
    /// keys before values.
    pub fn validate_map(
        map: &Vec<(String, String)>,
        max_key_length: usize,
        max_value_length: usize,
    ) -> (r: Result<u128, Exception>)
        requires
            max_key_length <= 1000000,
            max_value_length <= 1000000,
        ensures
            r is Ok <==> spec_map_violation(map@, max_key_length as int, max_value_length as int)
                < 0,
            r matches Ok(est) ==> est == spec_map_estimate(map@) && est <= map@.len() * 2000000,
            r matches Err(e) ==> {
                let v = spec_map_violation(map@, max_key_length as int, max_value_length as int);
                &&& 0 <= v < map@.len()
                &&& (if map@[v].0@.len() > max_key_length {
                    spec_validation_error(e, spec_key_error(map@[v].0@))
                } else {
                    spec_validation_error(e, spec_value_error(map@[v].0@, map@[v].1@))
                })
            },
    {
        let mut estimated: u128 = 0;
        let mut i: usize = 0;
        proof {
            assert(map@.skip(0) =~= map@);
            assert(map@.take(0) =~= Seq::<(String, String)>::empty());
        }
        while i < map.len()
            invariant
                i <= map@.len(),
                max_key_length <= 1000000,
                max_value_length <= 1000000,
                spec_map_violation(map@, max_key_length as int, max_value_length as int) < 0
                    <==> spec_map_violation(
                    map@.skip(i as int),
                    max_key_length as int,
                    max_value_length as int,
                ) < 0,
                spec_map_violation(map@, max_key_length as int, max_value_length as int) >= 0
                    ==> spec_map_violation(map@, max_key_length as int, max_value_length as int)
                    == i + spec_map_violation(
                    map@.skip(i as int),
                    max_key_length as int,
                    max_value_length as int,
                ),
                estimated == spec_map_estimate(map@.take(i as int)),
                estimated <= i * 2000000,
            decreases map@.len() - i,
        {
            let key_len = map[i].0.as_str().unicode_len();
            proof {
                assert(map@.skip(i as int)[0] == map@[i as int]);
                assert(map@.skip(i as int).drop_first() =~= map@.skip(i + 1));
            }
            if key_len > max_key_length {
                let t = truncate(map[i].0.as_str(), 50);
                let mut m = "key is too long, key=".to_owned();
                m.append(t);
                m.append("...(truncated)");
                proof {
                    assert(m@ =~= spec_key_error(map@[i as int].0@));
                }
                return Err(Exception::validation_error(m));
            }
            let value_len = map[i].1.as_str().unicode_len();
            if value_len > max_value_length {
                let t = truncate(map[i].1.as_str(), 200);
                let mut m = "value is too long, key=".to_owned();
                m.append(map[i].0.as_str());
                m.append(", value=");
                m.append(t);
                m.append("...(truncated)");
                proof {
                    assert(m@ =~= spec_value_error(map@[i as int].0@, map@[i as int].1@));
                }
                return Err(Exception::validation_error(m));
            }
            estimated = estimated + key_len as u128 + value_len as u128;
            proof {
                assert(map@.take(i + 1).drop_last() =~= map@.take(i as int));
                assert(map@.take(i + 1).last() == map@[i as int]);
            }
            i += 1;
        }
        proof {
            assert(map@.take(map@.len() as int) =~= map@);
            assert(map@.skip(map@.len() as int) =~= Seq::<(String, String)>::empty());
        }
        Ok(estimated)
    }

    /// Checks the stats keys against the key bound.  Success carries the
    /// characters the stats add to the event's estimated size.
    pub fn validate_stats(keys: &Vec<String>, max_key_length: usize) -> (r: Result<
        u128,
        Exception,
    >)
        requires
            max_key_length <= 1000000,
        ensures
            r is Ok <==> spec_keys_violation(keys@, max_key_length as int) < 0,
            r matches Ok(est) ==> est == spec_keys_estimate(keys@) && est <= keys@.len() * 2000000,
            r matches Err(e) ==> {
                let v = spec_keys_violation(keys@, max_key_length as int);
                &&& 0 <= v < keys@.len()
                &&& spec_validation_error(e, spec_key_error(keys@[v]@))
            },
    {
        let mut estimated: u128 = 0;
        let mut i: usize = 0;
        proof {
            assert(keys@.skip(0) =~= keys@);
            assert(keys@.take(0) =~= Seq::<String>::empty());
        }
        while i < keys.len()
            invariant
                i <= keys@.len(),
                max_key_length <= 1000000,
                spec_keys_violation(keys@, max_key_length as int) < 0 <==> spec_keys_violation(
                    keys@.skip(i as int),
                    max_key_length as int,
                ) < 0,
                spec_keys_violation(keys@, max_key_length as int) >= 0 ==> spec_keys_violation(
                    keys@,
                    max_key_length as int,
                ) == i + spec_keys_violation(keys@.skip(i as int), max_key_length as int),
                estimated == spec_keys_estimate(keys@.take(i as int)),
                estimated <= i * 2000000,
            decreases keys@.len() - i,
        {
            let key_len = keys[i].as_str().unicode_len();
            proof {
                assert(keys@.skip(i as int)[0] == keys@[i as int]);
                assert(keys@.skip(i as int).drop_first() =~= keys@.skip(i + 1));
            }
            if key_len > max_key_length {
                let t = truncate(keys[i].as_str(), 50);
                let mut m = "key is too long, key=".to_owned();
                m.append(t);
                m.append("...(truncated)");
                proof {
                    assert(m@ =~= spec_key_error(keys@[i as int]@));
                }
                return Err(Exception::validation_error(m));
            }
            estimated = estimated + key_len as u128 + 5;
            proof {
                assert(keys@.take(i + 1).drop_last() =~= keys@.take(i as int));
                assert(keys@.take(i + 1).last() == keys@[i as int]);
            }
            i += 1;
        }
        proof {
            assert(keys@.take(keys@.len() as int) =~= keys@);
            assert(keys@.skip(keys@.len() as int) =~= Seq::<String>::empty());
        }
        Ok(estimated)
    }

    /// Accepts an event only when its identity and size rules hold: an OK
    /// event names its action; a WARN or ERROR event names a non-empty error
    /// code; keys and values respect their bounds; and the estimated size
    /// stays under the broker's limit.
    pub fn validate(&self) -> (r: Result<(), Exception>)
        ensures
            self.result == EventResult::Okay && self.action@.len() == 0 ==> (r matches Err(e)
                && spec_validation_error(e, "action must not be empty if result is OK"@)),
            (self.result == EventResult::Warn || self.result == EventResult::Error) && (match self
                .error_code {
                Option::None => true,
                Option::Some(c) => c@.len() == 0,
            }) ==> (r matches Err(e) && spec_validation_error(
                e,
                "errorCode must not be empty if result is WARN/ERROR"@,
            )),
            r is Ok <==> {
                &&& !(self.result == EventResult::Okay && self.action@.len() == 0)
                &&& !((self.result == EventResult::Warn || self.result == EventResult::Error)
                    && (match self.error_code {
                    Option::None => true,
                    Option::Some(c) => c@.len() == 0,
                }))
                &&& spec_map_violation(self.context@, 50, 1000) < 0
                &&& spec_map_violation(self.info@, 50, 500000) < 0
                &&& spec_keys_violation(self.stat_keys@, 50) < 0
                &&& spec_map_estimate(self.context@) + spec_map_estimate(self.info@)
                    + spec_keys_estimate(self.stat_keys@) <= 900000
            },
            r matches Err(e) ==> e.severity == crate::exception::Severity::Warn && (
            e.code matches Some(c) && c@ == crate::exception::VALIDATION_ERROR@),
    {
        let okay = match self.result {
            EventResult::Okay => true,
            _ => false,
        };
        if okay && self.action.as_str().unicode_len() == 0 {
            return Err(
                Exception::validation_error("action must not be empty if result is OK".to_owned()),
            );
        }
        if !okay {
            let code_missing = match &self.error_code {
                Some(c) => c.as_str().unicode_len() == 0,
                None => true,
            };
            if code_missing {
                return Err(
                    Exception::validation_error(
                        "errorCode must not be empty if result is WARN/ERROR".to_owned(),
                    ),
                );
            }
        }
        let mut estimated: u128 = 0;
        let ctx_count = self.context.len();
        let part = Event::validate_map(&self.context, MAX_KEY_LENGTH, MAX_CONTEXT_VALUE_LENGTH)?;
        proof {
            assert(self.context@.len() == ctx_count);
            vstd::arithmetic::mul::lemma_mul_inequality(
                self.context@.len() as int,
                usize::MAX as int,
                2000000,
            );
        }
        estimated = estimated + part;
        let info_count = self.info.len();
        let part = Event::validate_map(&self.info, MAX_KEY_LENGTH, MAX_INFO_VALUE_LENGTH)?;
        proof {
            assert(self.info@.len() == info_count);
            vstd::arithmetic::mul::lemma_mul_inequality(
                self.info@.len() as int,
                usize::MAX as int,
                2000000,
            );
        }
        estimated = estimated + part;
        let keys_count = self.stat_keys.len();
        let part = Event::validate_stats(&self.stat_keys, MAX_KEY_LENGTH)?;
        proof {
            assert(self.stat_keys@.len() == keys_count);
            vstd::arithmetic::mul::lemma_mul_inequality(
                self.stat_keys@.len() as int,
                usize::MAX as int,
                2000000,
            );
        }
        estimated = estimated + part;
        if estimated > MAX_ESTIMATED_LENGTH {
            let mut m = "event is too large, estimatedLength=".to_owned();
            let d = u128_to_string(estimated as u128);
            m.append(d.as_str());
            return Err(Exception::validation_error(m));
        }
        Ok(())
    }
}

} // verus!
