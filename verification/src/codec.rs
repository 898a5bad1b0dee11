//! Wire format for persisted task lists.
//!
//! A task list is stored as one self-describing text record: a bracketed
//! list of variant records, each a discriminator naming the variant followed
//! by the variant's own fields.  Target IDs are quoted, with quotes and
//! backslashes escaped.  This is the crate's only durable format and it
//! round-trips exactly: parsing is the strict inverse of printing.

use vstd::prelude::*;
use crate::harvest::HarvestV;
use crate::task::{Task, TaskV};

verus! {

/// One character of a quoted ID, escaped if it would end the quote early.
pub open spec fn esc_char(c: char) -> Seq<char> {
    if c == '"' || c == '\\' {
        seq!['\\', c]
    } else {
        seq![c]
    }
}

/// Escaped form of the first `i` characters of `s`.
pub open spec fn escape_upto(s: Seq<char>, i: int) -> Seq<char>
    decreases i,
{
    if i <= 0 {
        Seq::empty()
    } else {
        escape_upto(s, i - 1) + esc_char(s[i - 1])
    }
}

/// Escaped form of a whole ID.
pub open spec fn escape_seq(s: Seq<char>) -> Seq<char> {
    escape_upto(s, s.len() as int)
}

/// Printed form of a harvest record.
pub open spec fn print_harvest(h: HarvestV) -> Seq<char> {
    match h.source_id {
        None => "{}"@,
        Some(id) => "{\"_source_id\":\""@ + escape_seq(id) + "\"}"@,
    }
}

/// Printed form of one task record: discriminator, then fields.
pub open spec fn print_task(t: TaskV) -> Seq<char> {
    match t {
        TaskV::Harvest(h) => "{\"Harvest\":"@ + print_harvest(h) + "}"@,
    }
}

/// Printed forms of the first `i` tasks, comma-separated.
pub open spec fn print_items(ts: Seq<TaskV>, i: int) -> Seq<char>
    decreases i,
{
    if i <= 0 {
        Seq::empty()
    } else if i == 1 {
        print_task(ts[0])
    } else {
        print_items(ts, i - 1) + ","@ + print_task(ts[i - 1])
    }
}

/// Printed form of a whole task list.
pub open spec fn print_tasks(ts: Seq<TaskV>) -> Seq<char> {
    "["@ + print_items(ts, ts.len() as int) + "]"@
}

/// Whether `lit` occurs in `s` starting at position `i`.
pub open spec fn has_lit(s: Seq<char>, i: int, lit: Seq<char>) -> bool {
    0 <= i && i + lit.len() <= s.len() && s.subrange(i, i + lit.len()) == lit
}

/// Parses a quoted ID body starting at `i`, up to and past the closing
/// quote; yields the unescaped characters and the next position.
pub open spec fn parse_string_body(s: Seq<char>, i: int) -> Option<(Seq<char>, int)>
    decreases s.len() - i,
{
    if i < 0 || i >= s.len() {
        None
    } else if s[i] == '"' {
        Some((Seq::empty(), i + 1))
    } else if s[i] == '\\' {
        if i + 1 < s.len() && (s[i + 1] == '"' || s[i + 1] == '\\') {
            match parse_string_body(s, i + 2) {
                Some(p) => Some((seq![s[i + 1]] + p.0, p.1)),
                None => None,
            }
        } else {
            None
        }
    } else {
        match parse_string_body(s, i + 1) {
            Some(p) => Some((seq![s[i]] + p.0, p.1)),
            None => None,
        }
    }
}

/// Parses one harvest record starting at `i`.
pub open spec fn parse_harvest(s: Seq<char>, i: int) -> Option<(HarvestV, int)> {
    if has_lit(s, i, "{}"@) {
        Some((HarvestV { source_id: None }, i + "{}"@.len()))
    } else if has_lit(s, i, "{\"_source_id\":\""@) {
        match parse_string_body(s, i + "{\"_source_id\":\""@.len() as int) {
            Some(p) => if p.1 < s.len() && s[p.1] == '}' {
                Some((HarvestV { source_id: Some(p.0) }, p.1 + 1))
            } else {
                None
            },
            None => None,
        }
    } else {
        None
    }
}

/// Parses one task record starting at `i`.
pub open spec fn parse_task(s: Seq<char>, i: int) -> Option<(TaskV, int)> {
    if has_lit(s, i, "{\"Harvest\":"@) {
        match parse_harvest(s, i + "{\"Harvest\":"@.len() as int) {
            Some(p) => if p.1 < s.len() && s[p.1] == '}' {
                Some((TaskV::Harvest(p.0), p.1 + 1))
            } else {
                None
            },
            None => None,
        }
    } else {
        None
    }
}

/// Parses the task records of a non-empty list from position `i` to the
/// closing bracket, inclusive.
pub open spec fn parse_items(s: Seq<char>, i: int) -> Option<(Seq<TaskV>, int)>
    decreases s.len() - i,
{
    match parse_task(s, i) {
        Some(p) => if !(i < p.1 && p.1 < s.len()) {
            None
        } else if s[p.1] == ']' {
            Some((seq![p.0], p.1 + 1))
        } else if s[p.1] == ',' {
            match parse_items(s, p.1 + 1) {
                Some(q) => Some((seq![p.0] + q.0, q.1)),
                None => None,
            }
        } else {
            None
        },
        None => None,
    }
}

/// Parses a whole task list record, strictly: the record must be consumed
/// exactly, with nothing left over.
pub open spec fn parse_tasks(s: Seq<char>) -> Option<Seq<TaskV>> {
    if s.len() < 2 || s[0] != '[' {
        None
    } else if s.len() == 2 && s[1] == ']' {
        Some(Seq::empty())
    } else {
        match parse_items(s, 1) {
            Some(p) => if p.1 == s.len() {
                Some(p.0)
            } else {
                None
            },
            None => None,
        }
    }
}

/// Prints one task record.
pub fn serialize_task(t: &Task) -> (r: String)
    ensures
        r@ == print_task(t@),
{
    let mut out = String::from_str("{\"Harvest\":");
    match t {
        Task::Harvest(h) => {
            match h.source_id() {
                None => {
                    out.append("{}");
                },
                Some(id) => {
                    out.append("{\"_source_id\":\"");
                    let ghost mid = out@;
                    let n = id.as_str().unicode_len();
                    let mut k: usize = 0;
                    while k < n
                        invariant
                            n == id@.len(),
                            k <= n,
                            out@ == mid + escape_upto(id@, k as int),
                        decreases n - k,
                    {
                        let c = id.as_str().get_char(k);
                        if c == '"' || c == '\\' {
                            crate::text::push_char(&mut out, '\\');
                            crate::text::push_char(&mut out, c);
                        } else {
                            crate::text::push_char(&mut out, c);
                        }
                        proof {
                            assert(out@ =~= mid + escape_upto(id@, k + 1));
                        }
                        k += 1;
                    }
                    out.append("\"}");
                    proof {
                        assert(out@ =~= "{\"Harvest\":"@ + print_harvest(h@));
                    }
                },
            }
        },
    }
    out.append("}");
    proof {
        assert(out@ =~= print_task(t@));
    }
    out
}

/// Prints a whole task list record.
pub fn serialize_tasks(ts: &Vec<Task>) -> (r: String)
    ensures
        r@ == print_tasks(ts@.map_values(|t: Task| t@)),
{
    let ghost vs = ts@.map_values(|t: Task| t@);
    let mut out = String::from_str("[");
    let n = ts.len();
    let mut i: usize = 0;
    while i < n
        invariant
            n == ts@.len(),
            vs == ts@.map_values(|t: Task| t@),
            i <= n,
            out@ == "["@ + print_items(vs, i as int),
        decreases n - i,
    {
        if i > 0 {
            out.append(",");
        }
        let piece = serialize_task(&ts[i]);
        out.append(piece.as_str());
        proof {
            assert(vs[i as int] == ts@[i as int]@);
            assert(out@ =~= "["@ + print_items(vs, i + 1));
        }
        i += 1;
    }
    out.append("]");
    proof {
        assert(out@ =~= print_tasks(vs));
    }
    out
}

/// Whether `lit` occurs in `s` at position `i`, decided character-wise.
fn has_lit_at(s: &str, i: usize, lit: &str) -> (r: bool)
    ensures
        r == has_lit(s@, i as int, lit@),
{
    let slen = s.unicode_len();
    let llen = lit.unicode_len();
    if llen > slen || i > slen - llen {
        return false;
    }
    let mut j: usize = 0;
    while j < llen
        invariant
            slen == s@.len(),
            llen == lit@.len(),
            i + llen <= slen,
            j <= llen,
            forall|m: int| 0 <= m < j ==> s@[i + m] == lit@[m],
        decreases llen - j,
    {
        if s.get_char(i + j) != lit.get_char(j) {
            proof {
                assert(s@.subrange(i as int, i + llen)[j as int] == s@[i + j]);
            }
            return false;
        }
        j += 1;
    }
    proof {
        assert(s@.subrange(i as int, i + llen) =~= lit@);
    }
    true
}

/// Runtime twin of [`parse_string_body`].
fn parse_string_body_x(s: &str, i: usize) -> (r: Option<(String, usize)>)
    ensures
        match r {
            Some(p) => parse_string_body(s@, i as int) == Some((p.0@, p.1 as int)),
            None => parse_string_body(s@, i as int) is None,
        },
    decreases s@.len() - i,
{
    let len = s.unicode_len();
    if i >= len {
        return None;
    }
    let c = s.get_char(i);
    if c == '"' {
        Some((String::new(), i + 1))
    } else if c == '\\' {
        if i + 1 < len {
            let c2 = s.get_char(i + 1);
            if c2 == '"' || c2 == '\\' {
                match parse_string_body_x(s, i + 2) {
                    Some(p) => {
                        let mut out = String::new();
                        crate::text::push_char(&mut out, c2);
                        out.append(p.0.as_str());
                        proof {
                            assert(out@ =~= seq![s@[i + 1]] + p.0@);
                        }
                        Some((out, p.1))
                    },
                    None => None,
                }
            } else {
                None
            }
        } else {
            None
        }
    } else {
        match parse_string_body_x(s, i + 1) {
            Some(p) => {
                let mut out = String::new();
                crate::text::push_char(&mut out, c);
                out.append(p.0.as_str());
                proof {
                    assert(out@ =~= seq![s@[i as int]] + p.0@);
                }
                Some((out, p.1))
            },
            None => None,
        }
    }
}

/// Runtime twin of [`parse_harvest`].
fn parse_harvest_x(s: &str, i: usize) -> (r: Option<(crate::harvest::Harvest, usize)>)
    ensures
        match r {
            Some(p) => parse_harvest(s@, i as int) == Some((p.0@, p.1 as int)),
            None => parse_harvest(s@, i as int) is None,
        },
{
    let len = s.unicode_len();
    if has_lit_at(s, i, "{}") {
        proof {
            reveal_strlit("{}");
        }
        Some((crate::harvest::Harvest::new(None), i + 2))
    } else if has_lit_at(s, i, "{\"_source_id\":\"") {
        let lead = "{\"_source_id\":\"".unicode_len();
        match parse_string_body_x(s, i + lead) {
            Some(p) => {
                if p.1 < len && s.get_char(p.1) == '}' {
                    Some((crate::harvest::Harvest::new(Some(p.0)), p.1 + 1))
                } else {
                    None
                }
            },
            None => None,
        }
    } else {
        None
    }
}

/// Runtime twin of [`parse_task`].
fn parse_task_x(s: &str, i: usize) -> (r: Option<(Task, usize)>)
    ensures
        match r {
            Some(p) => parse_task(s@, i as int) == Some((p.0@, p.1 as int)),
            None => parse_task(s@, i as int) is None,
        },
{
    let len = s.unicode_len();
    if has_lit_at(s, i, "{\"Harvest\":") {
        let lead = "{\"Harvest\":".unicode_len();
        match parse_harvest_x(s, i + lead) {
            Some(p) => {
                if p.1 < len && s.get_char(p.1) == '}' {
                    Some((Task::Harvest(p.0), p.1 + 1))
                } else {
                    None
                }
            },
            None => None,
        }
    } else {
        None
    }
}

/// Runtime twin of [`parse_items`].
fn parse_items_x(s: &str, i: usize) -> (r: Option<(Vec<Task>, usize)>)
    ensures
        match r {
            Some(p) => parse_items(s@, i as int) == Some(
                (p.0@.map_values(|t: Task| t@), p.1 as int),
            ),
            None => parse_items(s@, i as int) is None,
        },
    decreases s@.len() - i,
{
    let len = s.unicode_len();
    match parse_task_x(s, i) {
        Some(p) => {
            let (t, j) = p;
            if !(i < j && j < len) {
                return None;
            }
            let c = s.get_char(j);
            if c == ']' {
                let mut v: Vec<Task> = Vec::new();
                v.push(t);
                proof {
                    assert(v@.map_values(|t: Task| t@) =~= seq![v@[0]@]);
                }
                Some((v, j + 1))
            } else if c == ',' {
                match parse_items_x(s, j + 1) {
                    Some(q) => {
                        let (mut rest, k) = q;
                        rest.insert(0, t);
                        proof {
                            assert(rest@.map_values(|t: Task| t@) =~= seq![rest@[0]@]
                                + rest@.drop_first().map_values(|t: Task| t@));
                        }
                        Some((rest, k))
                    },
                    None => None,
                }
            } else {
                None
            }
        },
        None => None,
    }
}

/// Parses a stored record back into a task list; yields nothing when the
/// record is not exactly a printed task list.
pub fn deserialize_tasks(s: &str) -> (r: Option<Vec<Task>>)
    ensures
        match r {
            Some(v) => parse_tasks(s@) == Some(v@.map_values(|t: Task| t@)),
            None => parse_tasks(s@) is None,
        },
{
    let len = s.unicode_len();
    if len < 2 || s.get_char(0) != '[' {
        return None;
    }
    if len == 2 && s.get_char(1) == ']' {
        let v: Vec<Task> = Vec::new();
        proof {
            assert(v@.map_values(|t: Task| t@) =~= Seq::<TaskV>::empty());
        }
        return Some(v);
    }
    match parse_items_x(s, 1) {
        Some(p) => {
            if p.1 == len {
                Some(p.0)
            } else {
                None
            }
        },
        None => None,
    }
}

proof fn lemma_escape_first(s: Seq<char>, i: int)
    requires
        1 <= i <= s.len(),
    ensures
        escape_upto(s, i) == esc_char(s[0]) + escape_upto(s.drop_first(), i - 1),
    decreases i,
{
    if i == 1 {
        assert(escape_upto(s, 1) =~= esc_char(s[0]) + escape_upto(s.drop_first(), 0));
    } else {
        lemma_escape_first(s, i - 1);
        assert(s[i - 1] == s.drop_first()[i - 2]);
        assert(escape_upto(s, i - 1) + esc_char(s[i - 1]) =~= esc_char(s[0]) + (escape_upto(
            s.drop_first(),
            i - 2,
        ) + esc_char(s.drop_first()[i - 2])));
    }
}

proof fn lemma_parse_string(a: Seq<char>, id: Seq<char>, rest: Seq<char>)
    ensures
        parse_string_body(a + escape_seq(id) + seq!['"'] + rest, a.len() as int) == Some(
            (id, (a.len() + escape_seq(id).len() + 1) as int),
        ),
    decreases id.len(),
{
    let s = a + escape_seq(id) + seq!['"'] + rest;
    let i = a.len() as int;
    if id.len() == 0 {
        assert(escape_seq(id) =~= Seq::<char>::empty());
        assert(s[i] == '"');
        assert(id =~= Seq::<char>::empty());
    } else {
        let c = id[0];
        let id2 = id.drop_first();
        lemma_escape_first(id, id.len() as int);
        assert(escape_seq(id) == esc_char(c) + escape_upto(id2, id.len() - 1));
        assert(escape_upto(id2, id.len() - 1) == escape_seq(id2));
        if c == '"' || c == '\\' {
            assert(esc_char(c) =~= seq!['\\', c]);
            assert(s[i] == '\\');
            assert(s[i + 1] == c);
            let a2 = a + seq!['\\', c];
            lemma_parse_string(a2, id2, rest);
            assert(a2 + escape_seq(id2) + seq!['"'] + rest =~= s);
            assert(parse_string_body(s, i + 2) == Some(
                (id2, (a2.len() + escape_seq(id2).len() + 1) as int),
            ));
            assert(seq![s[i + 1]] + id2 =~= id);
        } else {
            assert(esc_char(c) =~= seq![c]);
            assert(s[i] == c);
            let a2 = a + seq![c];
            lemma_parse_string(a2, id2, rest);
            assert(a2 + escape_seq(id2) + seq!['"'] + rest =~= s);
            assert(parse_string_body(s, i + 1) == Some(
                (id2, (a2.len() + escape_seq(id2).len() + 1) as int),
            ));
            assert(seq![s[i]] + id2 =~= id);
        }
    }
}

proof fn lemma_parse_harvest_print(a: Seq<char>, h: HarvestV, rest: Seq<char>)
    ensures
        parse_harvest(a + print_harvest(h) + rest, a.len() as int) == Some(
            (h, (a.len() + print_harvest(h).len()) as int),
        ),
{
    let p = print_harvest(h);
    let s = a + p + rest;
    let i = a.len() as int;
    reveal_strlit("{}");
    reveal_strlit("{\"_source_id\":\"");
    reveal_strlit("\"}");
    assert forall|m: int| 0 <= m < p.len() implies s[i + m] == p[m] by {}
    match h.source_id {
        None => {
            assert(s.subrange(i, i + 2) =~= "{}"@);
            assert(has_lit(s, i, "{}"@));
        },
        Some(id) => {
            let lit = "{\"_source_id\":\""@;
            assert(lit.len() == 15);
            assert(p[1] == lit[1]);
            assert(p[1] == '"');
            if has_lit(s, i, "{}"@) {
                assert(s.subrange(i, i + 2)[1] == s[i + 1]);
                assert(s[i + 1] == '}');
                assert(false);
            }
            assert(s.subrange(i, i + 15) =~= lit);
            assert(has_lit(s, i, lit));
            assert("\"}"@ =~= seq!['"'] + seq!['}']);
            let a2 = a + lit;
            let rest2 = seq!['}'] + rest;
            assert(a2 + escape_seq(id) + seq!['"'] + rest2 =~= s);
            lemma_parse_string(a2, id, rest2);
            let j = a2.len() + escape_seq(id).len() + 1;
            assert(parse_string_body(s, i + 15) == Some((id, j as int)));
            assert(s[j as int] == '}');
            assert(j + 1 == i + p.len());
        },
    }
}

proof fn lemma_parse_task_print(a: Seq<char>, t: TaskV, rest: Seq<char>)
    ensures
        parse_task(a + print_task(t) + rest, a.len() as int) == Some(
            (t, (a.len() + print_task(t).len()) as int),
        ),
{
    let p = print_task(t);
    let s = a + p + rest;
    let i = a.len() as int;
    reveal_strlit("{\"Harvest\":");
    reveal_strlit("}");
    let lit = "{\"Harvest\":"@;
    assert(lit.len() == 11);
    match t {
        TaskV::Harvest(h) => {
            assert forall|m: int| 0 <= m < p.len() implies s[i + m] == p[m] by {}
            assert(s.subrange(i, i + 11) =~= lit);
            assert(has_lit(s, i, lit));
            assert("}"@ =~= seq!['}']);
            let a2 = a + lit;
            let rest2 = seq!['}'] + rest;
            assert(a2 + print_harvest(h) + rest2 =~= s);
            lemma_parse_harvest_print(a2, h, rest2);
            let j = a2.len() + print_harvest(h).len();
            assert(parse_harvest(s, i + 11) == Some((h, j as int)));
            assert(s[j as int] == '}');
            assert(j + 1 == i + p.len());
        },
    }
}

proof fn lemma_print_task_len(t: TaskV)
    ensures
        print_task(t).len() >= 11,
{
    reveal_strlit("{\"Harvest\":");
}

proof fn lemma_print_items_first(ts: Seq<TaskV>, i: int)
    requires
        1 <= i <= ts.len(),
    ensures
        print_items(ts, i) == print_task(ts[0]) + (if i == 1 {
            Seq::<char>::empty()
        } else {
            ","@ + print_items(ts.drop_first(), i - 1)
        }),
    decreases i,
{
    let ts2 = ts.drop_first();
    if i == 1 {
        assert(print_items(ts, 1) =~= print_task(ts[0]) + Seq::<char>::empty());
    } else if i == 2 {
        assert(ts[1] == ts2[0]);
        assert(print_items(ts, 1) == print_task(ts[0]));
        assert(print_items(ts2, 1) == print_task(ts2[0]));
        assert(print_items(ts, 2) =~= print_task(ts[0]) + (","@ + print_items(ts2, 1)));
    } else {
        lemma_print_items_first(ts, i - 1);
        assert(ts[i - 1] == ts2[i - 2]);
        assert((print_task(ts[0]) + (","@ + print_items(ts2, i - 2))) + ","@ + print_task(
            ts2[i - 2],
        ) =~= print_task(ts[0]) + (","@ + (print_items(ts2, i - 2) + ","@ + print_task(
            ts2[i - 2],
        ))));
    }
}

proof fn lemma_parse_items_print(a: Seq<char>, ts: Seq<TaskV>, rest: Seq<char>)
    requires
        ts.len() >= 1,
    ensures
        parse_items(a + print_items(ts, ts.len() as int) + seq![']'] + rest, a.len() as int)
            == Some((ts, (a.len() + print_items(ts, ts.len() as int).len() + 1) as int)),
    decreases ts.len(),
{
    let p = print_items(ts, ts.len() as int);
    let s = a + p + seq![']'] + rest;
    let i = a.len() as int;
    reveal_strlit(",");
    lemma_print_items_first(ts, ts.len() as int);
    lemma_print_task_len(ts[0]);
    if ts.len() == 1 {
        assert(p == print_task(ts[0]) + Seq::<char>::empty());
        assert(p =~= print_task(ts[0]));
        assert(a + print_task(ts[0]) + (seq![']'] + rest) =~= s);
        lemma_parse_task_print(a, ts[0], seq![']'] + rest);
        let j = a.len() + print_task(ts[0]).len();
        assert(parse_task(s, i) == Some((ts[0], j as int)));
        assert(s[j as int] == ']');
        assert(seq![ts[0]] =~= ts);
    } else {
        let ts2 = ts.drop_first();
        assert(p == print_task(ts[0]) + (","@ + print_items(ts2, ts.len() - 1)));
        assert(","@ =~= seq![',']);
        assert(a + print_task(ts[0]) + (","@ + print_items(ts2, ts.len() - 1) + seq![']']
            + rest) =~= s);
        lemma_parse_task_print(a, ts[0], ","@ + print_items(ts2, ts.len() - 1) + seq![']'] + rest);
        let j = a.len() + print_task(ts[0]).len();
        assert(parse_task(s, i) == Some((ts[0], j as int)));
        assert(s[j as int] == ',');
        let a2 = a + print_task(ts[0]) + seq![','];
        assert(a2 + print_items(ts2, ts2.len() as int) + seq![']'] + rest =~= s);
        lemma_parse_items_print(a2, ts2, rest);
        let k = a2.len() + print_items(ts2, ts2.len() as int).len() + 1;
        assert(parse_items(s, (j + 1) as int) == Some((ts2, k as int)));
        assert(seq![ts[0]] + ts2 =~= ts);
        assert(k == a.len() + p.len() + 1);
    }
}

/// Round-trip law of the wire format: parsing the printed record of any
/// task list yields exactly that list again — so printing, parsing and
/// printing again reproduces the record character for character.
pub proof fn lemma_task_codec_round_trip(ts: Seq<TaskV>)
    ensures
        parse_tasks(print_tasks(ts)) == Some(ts),
{
    let s = print_tasks(ts);
    reveal_strlit("[");
    reveal_strlit("]");
    assert("["@ =~= seq!['[']);
    assert("]"@ =~= seq![']']);
    assert(s[0] == '[');
    if ts.len() == 0 {
        assert(print_items(ts, 0) =~= Seq::<char>::empty());
        assert(s =~= seq!['['] + seq![']']);
        assert(s.len() == 2 && s[1] == ']');
        assert(Seq::<TaskV>::empty() =~= ts);
    } else {
        let p = print_items(ts, ts.len() as int);
        lemma_print_items_first(ts, ts.len() as int);
        lemma_print_task_len(ts[0]);
        assert(p.len() >= 11);
        assert(s.len() > 2);
        assert("["@ + p + seq![']'] + Seq::<char>::empty() =~= s);
        lemma_parse_items_print("["@, ts, Seq::<char>::empty());
        assert(parse_items(s, 1) == Some((ts, (1 + p.len() + 1) as int)));
        assert(1 + p.len() + 1 == s.len());
    }
}

} // verus!
