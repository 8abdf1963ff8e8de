//! The server-sent-events wire parser: bytes from the response stream are cut
//! into lines, lines into `field: value` pairs, and `data` lines into events
//! that carry the last seen `id` and `event` fields.  The socket and the
//! stream polling live outside; every parsing decision is made here.

use vstd::prelude::*;

verus! {

/// What `String::from_utf8_lossy` decodes the given bytes to.
pub uninterp spec fn lossy_utf8(bytes: Seq<u8>) -> Seq<char>;

/// Relies on `String::from_utf8_lossy`: valid UTF-8 decodes to exactly its
/// characters, so an all-ASCII byte line decodes to its bytes as characters.
#[verifier::external_body]
fn lossy_string(bytes: &Vec<u8>) -> (r: String)
    ensures
        r@ == lossy_utf8(bytes@),
        (forall|i: int| 0 <= i < bytes@.len() ==> bytes@[i] < 128) ==> r@ == Seq::new(
            bytes@.len(),
            |i: int| bytes@[i] as char,
        ),
{
    String::from_utf8_lossy(bytes.as_slice()).into_owned()
}

/// One server-sent event: the last `id` and `event` fields seen before its
/// `data` line, and the data itself.
pub struct Event {
    pub id: Option<String>,
    pub event_type: Option<String>,
    pub data: String,
}

/// Index of the first `": "` separator in a line, or -1.
pub open spec fn spec_sep_index(line: Seq<u8>) -> int
    decreases line.len(),
{
    if line.len() < 2 {
        -1
    } else if line[0] == 58 && line[1] == 32 {
        0
    } else {
        let rest = spec_sep_index(line.drop_first());
        if rest < 0 {
            -1
        } else {
            rest + 1
        }
    }
}

/// The field name of a line: everything before the first separator.
pub open spec fn spec_line_field(line: Seq<u8>) -> Seq<u8> {
    line.take(spec_sep_index(line))
}

/// The value of a line: everything after the first separator.
pub open spec fn spec_line_value(line: Seq<u8>) -> Seq<u8> {
    line.skip(spec_sep_index(line) + 2)
}

/// The parser's state between bytes: the unfinished line, the pending event
/// identity, and the read counters reported when the stream closes.
pub struct EventSource {
    pub buffer: Vec<u8>,
    pub last_id: Option<String>,
    pub last_type: Option<String>,
    pub read_bytes: u64,
    pub read_entries: u64,
}

impl EventSource {
    pub fn new() -> (r: EventSource)
        ensures
            r.buffer@.len() == 0,
            r.last_id is None,
            r.last_type is None,
            r.read_bytes == 0,
            r.read_entries == 0,
    {
        EventSource {
            buffer: Vec::new(),
            last_id: None,
            last_type: None,
            read_bytes: 0,
            read_entries: 0,
        }
    }

    /// Absorbs one byte of the stream.  A newline closes the line in the
    /// buffer: an `id` or `event` line is remembered, a `data` line becomes
    /// an event carrying (and consuming) the remembered identity, and every
    /// other line is ignored.  Any other byte extends the buffer.
    pub fn process_byte(&mut self, byte: u8) -> (r: Option<Event>)
        ensures
            byte != 10 ==> {
                &&& r is None
                &&& final(self).buffer@ == old(self).buffer@.push(byte)
                &&& final(self).last_id == old(self).last_id
                &&& final(self).last_type == old(self).last_type
                &&& final(self).read_entries == old(self).read_entries
                &&& final(self).read_bytes == old(self).read_bytes
            },
            byte == 10 ==> {
                let line = old(self).buffer@;
                let sep = spec_sep_index(line);
                &&& final(self).buffer@.len() == 0
                &&& (r is Some <==> (sep >= 0 && spec_line_field(line) == "data"@.map_values(
                    |c: char| c as u8,
                )))
                &&& (r matches Some(ev) ==> {
                    &&& ev.id == old(self).last_id
                    &&& ev.event_type == old(self).last_type
                    &&& ev.data@ == lossy_utf8(spec_line_value(line))
                    &&& final(self).last_id is None
                    &&& final(self).last_type is None
                    &&& final(self).read_entries == (if old(self).read_entries < u64::MAX {
                        old(self).read_entries + 1
                    } else {
                        u64::MAX as int
                    })
                })
                &&& (sep >= 0 && spec_line_field(line) == "id"@.map_values(|c: char| c as u8)
                    ==> crate::action::opt_str_view(final(self).last_id) == Some(
                    lossy_utf8(spec_line_value(line)),
                ) && final(self).last_type == old(self).last_type)
                &&& (sep >= 0 && spec_line_field(line) == "event"@.map_values(|c: char| c as u8)
                    ==> crate::action::opt_str_view(final(self).last_type) == Some(
                    lossy_utf8(spec_line_value(line)),
                ) && final(self).last_id == old(self).last_id)
                &&& (!(sep >= 0) ==> r is None && final(self).last_id == old(self).last_id
                    && final(self).last_type == old(self).last_type)
            },
    {
        if byte != 10 {
            self.buffer.push(byte);
            return None;
        }
        let mut line: Vec<u8> = Vec::new();
        std::mem::swap(&mut line, &mut self.buffer);
        proof {
            reveal_strlit("data");
            reveal_strlit("id");
            reveal_strlit("event");
            assert("data"@.map_values(|c: char| c as u8) =~= seq![100u8, 97u8, 116u8, 97u8]);
            assert("id"@.map_values(|c: char| c as u8) =~= seq![105u8, 100u8]);
            assert("event"@.map_values(|c: char| c as u8) =~= seq![
                101u8,
                118u8,
                101u8,
                110u8,
                116u8,
            ]);
        }
        let n = line.len();
        if n > 0 {
            let added = if self.read_bytes <= u64::MAX - n as u64 {
                self.read_bytes + n as u64
            } else {
                u64::MAX
            };
            self.read_bytes = added;
        }
        let sep = find_separator(&line);
        match sep {
            Some(k) => {
                let ghost lv = line@;
                let value = copy_tail(&line, k + 2);
                if k == 2 && line[0] == 105 && line[1] == 100 {
                    proof {
                        assert(spec_line_field(lv) =~= seq![105u8, 100u8]);
                    }
                    self.last_id = Some(lossy_string(&value));
                    None
                } else if k == 5 && line[0] == 101 && line[1] == 118 && line[2] == 101 && line[3]
                    == 110 && line[4] == 116 {
                    proof {
                        assert(spec_line_field(lv) =~= seq![101u8, 118u8, 101u8, 110u8, 116u8]);
                    }
                    self.last_type = Some(lossy_string(&value));
                    None
                } else if k == 4 && line[0] == 100 && line[1] == 97 && line[2] == 116 && line[3]
                    == 97 {
                    proof {
                        assert(spec_line_field(lv) =~= seq![100u8, 97u8, 116u8, 97u8]);
                    }
                    let mut id: Option<String> = None;
                    std::mem::swap(&mut id, &mut self.last_id);
                    let mut event_type: Option<String> = None;
                    std::mem::swap(&mut event_type, &mut self.last_type);
                    let data = lossy_string(&value);
                    self.read_entries = if self.read_entries < u64::MAX {
                        self.read_entries + 1
                    } else {
                        u64::MAX
                    };
                    Some(Event { id, event_type, data })
                } else {
                    proof {
                        lemma_field_mismatch(lv, k as int);
                    }
                    None
                }
            },
            None => None,
        }
    }
}

/// Distinct byte strings of the known field names differ from any other field.
proof fn lemma_field_mismatch(line: Seq<u8>, k: int)
    requires
        spec_sep_index(line) == k,
        0 <= k,
    ensures
        spec_line_field(line).len() == k,
{
    lemma_sep_index_bounds(line);
}

/// Finds the first `": "` separator.
fn find_separator(line: &Vec<u8>) -> (r: Option<usize>)
    ensures
        r matches Some(k) ==> k as int == spec_sep_index(line@) && k + 2 <= line@.len(),
        r is None ==> spec_sep_index(line@) < 0,
{
    let n = line.len();
    if n < 2 {
        proof {
            lemma_sep_index_bounds(line@);
        }
        return None;
    }
    let mut i: usize = 0;
    proof {
        assert(line@.skip(0) =~= line@);
    }
    while i + 1 < n
        invariant
            i + 1 <= n,
            n == line@.len(),
            spec_sep_index(line@) == (if spec_sep_index(line@.skip(i as int)) < 0 {
                -1int
            } else {
                i + spec_sep_index(line@.skip(i as int))
            }),
        decreases n - i,
    {
        if line[i] == 58 && line[i + 1] == 32 {
            proof {
                assert(line@.skip(i as int)[0] == line@[i as int]);
                assert(line@.skip(i as int)[1] == line@[i + 1]);
                lemma_sep_index_bounds(line@);
            }
            return Some(i);
        }
        proof {
            assert(line@.skip(i as int)[0] == line@[i as int]);
            assert(line@.skip(i as int)[1] == line@[i + 1]);
            assert(line@.skip(i as int).drop_first() =~= line@.skip(i + 1));
        }
        i += 1;
    }
    proof {
        assert(line@.skip(i as int).len() < 2);
    }
    None
}

/// The separator index found is within the line.
proof fn lemma_sep_index_bounds(line: Seq<u8>)
    ensures
        spec_sep_index(line) >= 0 ==> spec_sep_index(line) + 2 <= line.len(),
        spec_sep_index(line) >= -1,
    decreases line.len(),
{
    if line.len() >= 2 && !(line[0] == 58 && line[1] == 32) {
        lemma_sep_index_bounds(line.drop_first());
    }
}

/// Copies the bytes from `from` to the end.
fn copy_tail(line: &Vec<u8>, from: usize) -> (r: Vec<u8>)
    requires
        from <= line@.len(),
    ensures
        r@ == line@.skip(from as int),
{
    let mut r: Vec<u8> = Vec::new();
    let mut i: usize = from;
    while i < line.len()
        invariant
            from <= i <= line@.len(),
            r@ =~= line@.subrange(from as int, i as int),
        decreases line@.len() - i,
    {
        r.push(line[i]);
        i += 1;
    }
    proof {
        assert(r@ =~= line@.skip(from as int));
    }
    r
}

} // verus!
