//! The application registry: unique names mapped to executable paths.

use vstd::prelude::*;
use vstd::string::*;

verus! {

/// One registered application.
pub struct AppEntry {
    pub name: String,
    pub path: String,
}

/// Why a registry operation was refused.
#[derive(PartialEq, Eq, Structural, Debug, Clone, Copy)]
pub enum RegistryError {
    /// An application with this name is already registered.
    DuplicateName,
}

/// A record as the contracts see it: (name, path).
pub type EntryView = (Seq<char>, Seq<char>);

/// Whether some record of `v` carries `name`.
pub open spec fn has_name(v: Seq<EntryView>, name: Seq<char>) -> bool {
    exists|i: int| 0 <= i < v.len() && #[trigger] v[i].0 == name
}

/// No two records share a name.
pub open spec fn names_unique(v: Seq<EntryView>) -> bool {
    forall|i: int, j: int|
        0 <= i < v.len() && 0 <= j < v.len() && i != j ==> #[trigger] v[i].0 != #[trigger] v[j].0
}

/// The records after adding `(name, path)`: unchanged when the name is taken,
/// else the new record comes last.
pub open spec fn added(v: Seq<EntryView>, name: Seq<char>, path: Seq<char>) -> Seq<EntryView> {
    if has_name(v, name) {
        v
    } else {
        v.push((name, path))
    }
}

/// The records after adding each of `adds` in turn.
pub open spec fn added_all(v: Seq<EntryView>, adds: Seq<EntryView>) -> Seq<EntryView>
    decreases adds.len(),
{
    if adds.len() == 0 {
        v
    } else {
        added(added_all(v, adds.drop_last()), adds.last().0, adds.last().1)
    }
}

/// The text of a refused add: `App '<name>' already exists!`.
pub open spec fn exists_message(name: Seq<char>) -> Seq<char> {
    "App '"@ + name + "' already exists!"@
}

/// The text of an accepted add.
pub open spec fn added_message(name: Seq<char>) -> Seq<char> {
    "App '"@ + name + "' added successfully!"@
}

/// The text of an accepted add of a dropped file.
pub open spec fn added_with_icon_message(name: Seq<char>) -> Seq<char> {
    "App '"@ + name + "' added successfully with icon!"@
}

/// The line that records `(name, path)` in the log: `name:path` and a newline.
pub open spec fn log_line(name: Seq<char>, path: Seq<char>) -> Seq<char> {
    name + ":"@ + path + "\n"@
}

/// `prefix`, then `middle`, then `suffix`, as one string.
fn framed(prefix: &str, middle: &String, suffix: &str) -> (r: String)
    ensures
        r@ == prefix@ + middle@ + suffix@,
{
    let mut r = String::from_str(prefix);
    r.append(middle.as_str());
    r.append(suffix);
    r
}

/// The log record for `(name, path)`, newline included.
pub fn log_record(name: &String, path: &String) -> (r: String)
    ensures
        r@ == log_line(name@, path@),
{
    let mut r = name.clone();
    r.append(":");
    r.append(path.as_str());
    r.append("\n");
    r
}

/// What became of appending a record to the log.
pub enum LogAppend {
    /// The record was written.
    Written,
    /// The log could not be opened or written, with the error's text.
    Failed(String),
}

/// The outcome of an add once its log record has been appended: a failure to
/// open or write the log replaces the success message. The record stays in
/// the registry either way.
pub fn after_log_append(message: String, append: LogAppend) -> (r: Result<String, String>)
    ensures
        append is Written ==> r == Ok::<String, String>(message),
        append is Failed ==> r == Err::<String, String>(append->Failed_0),
{
    match append {
        LogAppend::Written => Ok(message),
        LogAppend::Failed(e) => Err(e),
    }
}

/// The applications known to this process, each name at most once.
pub struct AppRegistry {
    entries: Vec<AppEntry>,
}

impl AppRegistry {
    /// The registered records, in the order they were added.
    pub closed spec fn view(&self) -> Seq<EntryView> {
        self.entries@.map_values(|e: AppEntry| (e.name@, e.path@))
    }

    /// The registry's invariant: names are unique.
    pub open spec fn wf(&self) -> bool {
        names_unique(self@)
    }

    /// An empty registry.
    pub fn new() -> (r: AppRegistry)
        ensures
            r.wf(),
            r@ == Seq::<EntryView>::empty(),
    {
        let r = AppRegistry { entries: Vec::new() };
        assert(r@ =~= Seq::<EntryView>::empty());
        r
    }

    /// Number of registered applications.
    pub fn len(&self) -> (r: usize)
        ensures
            r == self@.len(),
    {
        self.entries.len()
    }

    /// Whether an application called `name` is registered.
    pub fn contains_name(&self, name: &String) -> (r: bool)
        ensures
            r == has_name(self@, name@),
    {
        let mut i: usize = 0;
        while i < self.entries.len()
            invariant
                i <= self.entries@.len(),
                forall|k: int| 0 <= k < i ==> self@[k].0 != name@,
            decreases self.entries@.len() - i,
        {
            if self.entries[i].name == *name {
                assert(self@[i as int].0 == name@);
                return true;
            }
            i = i + 1;
        }
        false
    }

    /// Registers `name` with `path`, unless the name is taken; the check and
    /// the insertion are one step, so a name can never be registered twice.
    pub fn insert_new(&mut self, name: String, path: String) -> (r: Result<(), RegistryError>)
        requires
            old(self).wf(),
        ensures
            final(self).wf(),
            final(self)@ == added(old(self)@, name@, path@),
            r == Err::<(), RegistryError>(RegistryError::DuplicateName) <==> has_name(old(self)@, name@),
            r is Ok <==> !has_name(old(self)@, name@),
    {
        if self.contains_name(&name) {
            Err(RegistryError::DuplicateName)
        } else {
            let ghost before = self@;
            self.entries.push(AppEntry { name, path });
            assert(self@ =~= before.push((name@, path@)));
            assert forall|i: int, j: int|
                0 <= i < self@.len() && 0 <= j < self@.len() && i != j
                implies #[trigger] self@[i].0 != #[trigger] self@[j].0 by {
                if i < before.len() && j == before.len() {
                    assert(before[i].0 != name@);
                } else if j < before.len() && i == before.len() {
                    assert(before[j].0 != name@);
                }
            }
            Ok(())
        }
    }

    /// Adds `name` with `path`: refused with a message when the name is
    /// taken, the registry then unchanged. The caller appends
    /// `log_record(name, path)` to the log after a success.
    pub fn add_app(&mut self, name: String, path: String) -> (r: Result<String, String>)
        requires
            old(self).wf(),
        ensures
            final(self).wf(),
            final(self)@ == added(old(self)@, name@, path@),
            has_name(old(self)@, name@) ==> r is Err && r->Err_0@ == exists_message(name@),
            !has_name(old(self)@, name@) ==> r is Ok && r->Ok_0@ == added_message(name@),
    {
        let n = name.clone();
        match self.insert_new(name, path) {
            Ok(()) => Ok(framed("App '", &n, "' added successfully!")),
            Err(_) => Err(framed("App '", &n, "' already exists!")),
        }
    }

    /// Like `add_app`, for an application dropped onto the launcher; its icon
    /// is resolved by the caller beforehand (see `icon::icon_or_default`).
    pub fn add_app_from_drop(&mut self, name: String, path: String) -> (r: Result<String, String>)
        requires
            old(self).wf(),
        ensures
            final(self).wf(),
            final(self)@ == added(old(self)@, name@, path@),
            has_name(old(self)@, name@) ==> r is Err && r->Err_0@ == exists_message(name@),
            !has_name(old(self)@, name@) ==> r is Ok && r->Ok_0@ == added_with_icon_message(
                name@,
            ),
    {
        let n = name.clone();
        match self.insert_new(name, path) {
            Ok(()) => Ok(framed("App '", &n, "' added successfully with icon!")),
            Err(_) => Err(framed("App '", &n, "' already exists!")),
        }
    }

    /// A copy of every (name, path) record, in the order they were added.
    pub fn get_apps(&self) -> (r: Vec<(String, String)>)
        ensures
            r@.map_values(|p: (String, String)| (p.0@, p.1@)) == self@,
    {
        let mut out: Vec<(String, String)> = Vec::new();
        let mut i: usize = 0;
        while i < self.entries.len()
            invariant
                i <= self.entries@.len(),
                out@.map_values(|p: (String, String)| (p.0@, p.1@)) =~= self@.take(i as int),
            decreases self.entries@.len() - i,
        {
            let e = &self.entries[i];
            out.push((e.name.clone(), e.path.clone()));
            assert(self@.take(i + 1) =~= self@.take(i as int).push(self@[i as int]));
            assert(out@.map_values(|p: (String, String)| (p.0@, p.1@)) =~= self@.take(i + 1));
            i = i + 1;
        }
        assert(self@.take(i as int) =~= self@);
        out
    }
}

/// Adding a name that is already registered leaves the records as they were,
/// whatever the path.
pub proof fn lemma_duplicate_add_unchanged(v: Seq<EntryView>, name: Seq<char>, path: Seq<char>)
    requires
        has_name(v, name),
    ensures
        added(v, name, path) == v,
{
}

/// Adds with distinct names, made one after another in any order onto a
/// registry that holds none of their names, lose no update: every earlier
/// record stays and each add's record is there once, after them.
pub proof fn lemma_serialized_adds_all_present(start: Seq<EntryView>, adds: Seq<EntryView>)
    requires
        names_unique(start),
        names_unique(adds),
        forall|k: int| 0 <= k < adds.len() ==> !has_name(start, #[trigger] adds[k].0),
    ensures
        added_all(start, adds) == start + adds,
        names_unique(start + adds),
    decreases adds.len(),
{
    if adds.len() > 0 {
        let init = adds.drop_last();
        let last = adds.last();
        assert forall|i: int, j: int|
            0 <= i < init.len() && 0 <= j < init.len() && i != j
            implies #[trigger] init[i].0 != #[trigger] init[j].0 by {
            assert(adds[i].0 != adds[j].0);
        }
        assert forall|k: int| 0 <= k < init.len() implies !has_name(start, #[trigger] init[k].0) by {
            assert(!has_name(start, adds[k].0));
        }
        lemma_serialized_adds_all_present(start, init);
        let mid = start + init;
        assert(!has_name(start, adds[adds.len() - 1].0));
        assert(!has_name(mid, last.0)) by {
            if has_name(mid, last.0) {
                let i = choose|i: int| 0 <= i < mid.len() && #[trigger] mid[i].0 == last.0;
                if i < start.len() {
                    assert(start[i].0 == last.0);
                } else {
                    assert(adds[i - start.len()].0 == adds[adds.len() - 1].0);
                }
            }
        }
        assert(mid.push(last) =~= start + adds);
    }
    assert forall|i: int, j: int|
        0 <= i < (start + adds).len() && 0 <= j < (start + adds).len() && i != j
        implies #[trigger] (start + adds)[i].0 != #[trigger] (start + adds)[j].0 by {
        if i < start.len() && j >= start.len() {
            assert(!has_name(start, adds[j - start.len()].0));
        } else if j < start.len() && i >= start.len() {
            assert(!has_name(start, adds[i - start.len()].0));
        }
    }
}

/// Adding applications with distinct names to an empty registry lists
/// exactly those applications, each once.
pub proof fn lemma_distinct_adds_listed(adds: Seq<EntryView>)
    requires
        names_unique(adds),
    ensures
        added_all(Seq::empty(), adds) == adds,
{
    lemma_serialized_adds_all_present(Seq::empty(), adds);
    assert(Seq::<EntryView>::empty() + adds =~= adds);
}

} // verus!
