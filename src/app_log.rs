//! The durable log of registered applications: one `name:path` line per
//! accepted add, and the reader that rebuilds a registry from it.

use vstd::prelude::*;
use vstd::string::*;
use crate::registry::{added, added_all, has_name, log_line, names_unique, AppRegistry, EntryView};

verus! {

/// What the reader holds after some prefix of a log: the complete records,
/// the current line's name and path so far, and whether its `:` was seen.
pub type ReadState = (Seq<EntryView>, Seq<char>, Seq<char>, bool);

/// The reader's state before any text.
pub open spec fn start_state() -> ReadState {
    (Seq::empty(), Seq::empty(), Seq::empty(), false)
}

/// One character of the log read in state `s`. A newline ends the line and
/// keeps it as a record if it held a `:`; the first `:` parts name from path.
pub open spec fn read_step(s: ReadState, c: char) -> ReadState {
    if c == '\n' {
        if s.3 {
            (s.0.push((s.1, s.2)), Seq::empty(), Seq::empty(), false)
        } else {
            (s.0, Seq::empty(), Seq::empty(), false)
        }
    } else if !s.3 && c == ':' {
        (s.0, s.1, Seq::empty(), true)
    } else if !s.3 {
        (s.0, s.1.push(c), s.2, false)
    } else {
        (s.0, s.1, s.2.push(c), true)
    }
}

/// The state after reading `t` from `s`.
pub open spec fn read_from(s: ReadState, t: Seq<char>) -> ReadState
    decreases t.len(),
{
    if t.len() == 0 {
        s
    } else {
        read_step(read_from(s, t.drop_last()), t.last())
    }
}

/// The records of a log: its complete lines that hold a `:`, in order. An
/// unfinished last line is not a record.
pub open spec fn parse_log(t: Seq<char>) -> Seq<EntryView> {
    read_from(start_state(), t).0
}

/// The log written for `records`, one line each, in order.
pub open spec fn log_text(records: Seq<EntryView>) -> Seq<char>
    decreases records.len(),
{
    if records.len() == 0 {
        Seq::empty()
    } else {
        log_text(records.drop_last()) + log_line(records.last().0, records.last().1)
    }
}

/// A record that its log line gives back: no `:` or newline in the name, no
/// newline in the path.
pub open spec fn loggable(e: EntryView) -> bool {
    &&& forall|k: int| 0 <= k < e.0.len() ==> #[trigger] e.0[k] != ':' && e.0[k] != '\n'
    &&& forall|k: int| 0 <= k < e.1.len() ==> #[trigger] e.1[k] != '\n'
}

proof fn lemma_read_concat(s: ReadState, a: Seq<char>, b: Seq<char>)
    ensures
        read_from(s, a + b) == read_from(read_from(s, a), b),
    decreases b.len(),
{
    if b.len() == 0 {
        assert(a + b =~= a);
    } else {
        lemma_read_concat(s, a, b.drop_last());
        assert((a + b).drop_last() =~= a + b.drop_last());
        assert((a + b).last() == b.last());
    }
}

proof fn lemma_read_name(recs: Seq<EntryView>, name: Seq<char>)
    requires
        forall|k: int| 0 <= k < name.len() ==> #[trigger] name[k] != ':' && name[k] != '\n',
    ensures
        read_from((recs, Seq::empty(), Seq::empty(), false), name) == (recs, name, Seq::<char>::empty(), false),
    decreases name.len(),
{
    if name.len() > 0 {
        let init = name.drop_last();
        assert forall|k: int| 0 <= k < init.len() implies #[trigger] init[k] != ':' && init[k] != '\n' by {
            assert(init[k] == name[k]);
        }
        lemma_read_name(recs, init);
        assert(name[name.len() - 1] != ':' && name[name.len() - 1] != '\n');
        assert(init.push(name.last()) =~= name);
    } else {
        assert(name =~= Seq::<char>::empty());
    }
}

proof fn lemma_read_path(recs: Seq<EntryView>, name: Seq<char>, path: Seq<char>)
    requires
        forall|k: int| 0 <= k < path.len() ==> #[trigger] path[k] != '\n',
    ensures
        read_from((recs, name, Seq::empty(), true), path) == (recs, name, path, true),
    decreases path.len(),
{
    if path.len() > 0 {
        let init = path.drop_last();
        assert forall|k: int| 0 <= k < init.len() implies #[trigger] init[k] != '\n' by {
            assert(init[k] == path[k]);
        }
        lemma_read_path(recs, name, init);
        assert(path[path.len() - 1] != '\n');
        assert(init.push(path.last()) =~= path);
    } else {
        assert(path =~= Seq::<char>::empty());
    }
}

proof fn lemma_read_line(recs: Seq<EntryView>, e: EntryView)
    requires
        loggable(e),
    ensures
        read_from((recs, Seq::empty(), Seq::empty(), false), log_line(e.0, e.1)) == (
            recs.push(e),
            Seq::<char>::empty(),
            Seq::<char>::empty(),
            false,
        ),
{
    let s0: ReadState = (recs, Seq::empty(), Seq::empty(), false);
    let colon: Seq<char> = seq![':'];
    let nl: Seq<char> = seq!['\n'];
    reveal_strlit(":");
    reveal_strlit("\n");
    assert(log_line(e.0, e.1) =~= ((e.0 + colon) + e.1) + nl);
    lemma_read_concat(s0, (e.0 + colon) + e.1, nl);
    lemma_read_concat(s0, e.0 + colon, e.1);
    lemma_read_concat(s0, e.0, colon);
    lemma_read_name(recs, e.0);
    let s1: ReadState = (recs, e.0, Seq::empty(), false);
    assert(colon.drop_last() =~= Seq::<char>::empty());
    assert(read_from(s1, Seq::<char>::empty()) == s1);
    assert(colon.last() == ':');
    assert(read_from(s1, colon) == read_step(s1, ':'));
    lemma_read_path(recs, e.0, e.1);
    let s2: ReadState = (recs, e.0, e.1, true);
    assert(nl.drop_last() =~= Seq::<char>::empty());
    assert(read_from(s2, Seq::<char>::empty()) == s2);
    assert(nl.last() == '\n');
    assert(read_from(s2, nl) == read_step(s2, '\n'));
}

proof fn lemma_read_log_text(records: Seq<EntryView>)
    requires
        forall|i: int| 0 <= i < records.len() ==> loggable(#[trigger] records[i]),
    ensures
        read_from(start_state(), log_text(records)) == (
            records,
            Seq::<char>::empty(),
            Seq::<char>::empty(),
            false,
        ),
    decreases records.len(),
{
    if records.len() == 0 {
        assert(records =~= Seq::<EntryView>::empty());
    } else {
        let init = records.drop_last();
        let e = records.last();
        assert forall|i: int| 0 <= i < init.len() implies loggable(#[trigger] init[i]) by {
            assert(init[i] == records[i]);
        }
        lemma_read_log_text(init);
        lemma_read_concat(start_state(), log_text(init), log_line(e.0, e.1));
        assert(loggable(records[records.len() - 1]));
        lemma_read_line(init, e);
        assert(init.push(e) =~= records);
    }
}

/// Rebuilds a registry from the text of a log: each record in turn is added,
/// and a record whose name came earlier is passed over.
pub fn load_log(text: &str) -> (r: AppRegistry)
    ensures
        r.wf(),
        r@ == added_all(Seq::empty(), parse_log(text@)),
{
    let n = text.unicode_len();
    let mut reg = AppRegistry::new();
    let mut line_start: usize = 0;
    let mut colon: Option<usize> = None;
    let mut i: usize = 0;
    assert(text@.take(0) =~= Seq::<char>::empty());
    while i < n
        invariant
            n == text@.len(),
            i <= n,
            line_start <= i,
            reg.wf(),
            ({
                let st = read_from(start_state(), text@.take(i as int));
                &&& reg@ == added_all(Seq::empty(), st.0)
                &&& colon is None ==> !st.3 && st.1 == text@.subrange(line_start as int, i as int)
                    && st.2 == Seq::<char>::empty()
                &&& colon is Some ==> st.3 && line_start <= colon->Some_0 < i
                    && st.1 == text@.subrange(line_start as int, colon->Some_0 as int)
                    && st.2 == text@.subrange(colon->Some_0 + 1, i as int)
            }),
        decreases n - i,
    {
        let ghost st = read_from(start_state(), text@.take(i as int));
        let c = text.get_char(i);
        assert(text@.take(i + 1).drop_last() =~= text@.take(i as int));
        assert(text@.take(i + 1).last() == c);
        assert(read_from(start_state(), text@.take(i + 1)) == read_step(st, c));
        if c == '\n' {
            match colon {
                Some(k) => {
                    let name = String::from_str(text.substring_char(line_start, k));
                    let path = String::from_str(text.substring_char(k + 1, i));
                    let _ = reg.insert_new(name, path);
                    assert(st.0.push((st.1, st.2)).drop_last() =~= st.0);
                },
                None => {},
            }
            line_start = i + 1;
            colon = None;
            assert(text@.subrange(line_start as int, i + 1) =~= Seq::<char>::empty());
        } else if c == ':' && colon.is_none() {
            colon = Some(i);
            assert(text@.subrange(i + 1, i + 1) =~= Seq::<char>::empty());
            assert(text@.subrange(line_start as int, i as int) =~= st.1);
        } else {
            match colon {
                Some(k) => {
                    assert(text@.subrange(k + 1, i + 1) =~= st.2.push(c));
                },
                None => {
                    assert(text@.subrange(line_start as int, i + 1) =~= st.1.push(c));
                },
            }
        }
        i = i + 1;
    }
    assert(text@.take(n as int) =~= text@);
    reg
}

/// Appending the record of an accepted add to the log of a registry gives the
/// log of the registry after the add.
pub proof fn lemma_accepted_add_appends_record(v: Seq<EntryView>, name: Seq<char>, path: Seq<char>)
    requires
        !has_name(v, name),
    ensures
        log_text(added(v, name, path)) == log_text(v) + log_line(name, path),
{
    assert(v.push((name, path)).drop_last() =~= v);
}

/// Reading back the log written for a registry's records gives those records,
/// and replaying them rebuilds the registry, as long as no name holds a `:`
/// or a newline and no path a newline.
pub proof fn lemma_log_round_trip(records: Seq<EntryView>)
    requires
        names_unique(records),
        forall|i: int| 0 <= i < records.len() ==> loggable(#[trigger] records[i]),
    ensures
        parse_log(log_text(records)) == records,
        added_all(Seq::empty(), parse_log(log_text(records))) == records,
{
    lemma_read_log_text(records);
    crate::registry::lemma_distinct_adds_listed(records);
}

} // verus!
