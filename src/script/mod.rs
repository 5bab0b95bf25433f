pub mod helper;

use std::collections::HashMap;

use vstd::prelude::*;
use vstd::string::*;

use crate::config::{Config, Mapping};
use crate::constants::{script_file_paths, spec_script_file_paths};
use crate::device::{Action, Event};
use crate::errors::{LoadScriptError, ScriptError, ScriptNotFound, ScriptRuntimeError, WatchError};
use crate::helper::{
    first_present, lemma_search_paths_len, opt_view, pick_first, search, search_paths, string_views,
};
use crate::script::helper::same_text;

verus! {

broadcast use vstd::std_specs::hash::group_hash_axioms;

/// mlua's Lua interpreter state, carried through opaque.
#[verifier::external_type_specification]
#[verifier::external_body]
pub struct ExLua(mlua::Lua);

/// mlua's error type, carried through opaque and turned into text.
#[verifier::external_type_specification]
#[verifier::external_body]
pub struct ExLuaError(mlua::Error);

/// Relies on mlua's `Lua::load` followed by `Chunk::exec`: runs `source` as one
/// chunk in the interpreter. What it does depends on the interpreter's state,
/// so nothing is promised of the outcome. `exec` re-raises a panic of a Rust
/// callable that the chunk calls, and does not return while the chunk runs:
/// this relies on the callables registered in `lua` not panicking.
#[verifier::external_body]
fn exec_chunk(lua: &mlua::Lua, source: &str) -> (r: Result<(), mlua::Error>) {
    lua.load(source).exec()
}

/// Relies on the `Display` impl of `mlua::Error`: the interpreter's own
/// description of a failure, for the operator.
#[verifier::external_body]
fn error_text(e: &mlua::Error) -> (r: String) {
    e.to_string()
}

/// Position of the last `c` in `s`, if any.
pub open spec fn last_index(s: Seq<char>, c: char) -> Option<int>
    decreases s.len(),
{
    if s.len() == 0 {
        None
    } else if s.last() == c {
        Some(s.len() - 1)
    } else {
        last_index(s.drop_last(), c)
    }
}

/// The last component of `path`: what follows its last `/`.
pub open spec fn base_name(path: Seq<char>) -> Seq<char> {
    match last_index(path, '/') {
        Some(p) => path.skip(p + 1),
        None => path,
    }
}

/// `name` without its extension: what precedes its last `.`, unless that `.`
/// opens the name.
pub open spec fn stem(name: Seq<char>) -> Seq<char> {
    match last_index(name, '.') {
        Some(p) => if p > 0 {
            name.take(p)
        } else {
            name
        },
        None => name,
    }
}

/// The table name under which the script `script` registers its entry points:
/// the stem of its last component. None where that component is empty, `.`
/// or `..`; unlike `Path::file_stem`, a reference that ends in `/` names no
/// table here.
pub open spec fn table_name(script: Seq<char>) -> Option<Seq<char>> {
    let b = base_name(script);
    if b.len() == 0 || b == seq!['.'] || b == seq!['.', '.'] {
        None
    } else {
        Some(stem(b))
    }
}

/// The name of the entry point that handles `action` for the table `table`.
pub open spec fn entry_point(table: Seq<char>, action: Action) -> Seq<char> {
    match action {
        Action::Press => table + ".Press"@,
        Action::Release => table + ".Release"@,
    }
}

/// `paths` with `path` added, where it is not there yet.
pub open spec fn with_path(paths: Seq<Seq<char>>, path: Seq<char>) -> Seq<Seq<char>> {
    if paths.contains(path) {
        paths
    } else {
        paths.push(path)
    }
}

/// The candidate locations of the script `script`, in search order.
pub open spec fn script_candidates(script: Seq<char>, home: Seq<char>) -> Seq<Seq<char>> {
    search_paths(spec_script_file_paths(), seq![script], home)
}

/// Number of candidate locations of one script.
pub const SCRIPT_CANDIDATE_COUNT: usize = 2;

/// Every script reference and home directory give `SCRIPT_CANDIDATE_COUNT`
/// candidates.
pub proof fn lemma_script_candidate_count(script: Seq<char>, home: Seq<char>)
    ensures
        script_candidates(script, home).len() == SCRIPT_CANDIDATE_COUNT,
{
    lemma_search_paths_len(spec_script_file_paths(), seq![script], home);
    assert(spec_script_file_paths().len() == 2);
    assert(seq![script].len() == 1);
}

/// Position of the last `c` in `s`, if any.
fn last_index_of(s: &str, c: char) -> (r: Option<usize>)
    ensures
        match r {
            Some(p) => p < s@.len() && last_index(s@, c) == Some(p as int),
            None => last_index(s@, c) is None,
        },
{
    let mut i: usize = s.unicode_len();
    assert(s@.take(i as int) =~= s@);
    while i > 0
        invariant
            i <= s@.len(),
            last_index(s@, c) == last_index(s@.take(i as int), c),
        decreases i,
    {
        if s.get_char(i - 1) == c {
            return Some(i - 1);
        }
        assert(s@.take(i as int).drop_last() =~= s@.take(i - 1));
        i = i - 1;
    }
    None
}

/// The table name of the script `script`, if it has one.
pub fn table_name_of(script: &str) -> (r: Option<String>)
    ensures
        opt_view(r) == table_name(script@),
{
    let n: usize = script.unicode_len();
    let base = match last_index_of(script, '/') {
        Some(p) => script.substring_char(p + 1, n),
        None => script,
    };
    assert(base@ == base_name(script@)) by {
        if let Some(p) = last_index(script@, '/') {
            assert(script@.skip(p + 1) =~= script@.subrange(p + 1, n as int));
        }
    };
    let bn: usize = base.unicode_len();
    if bn == 0 {
        return None;
    }
    if bn <= 2 && base.get_char(0) == '.' && base.get_char(bn - 1) == '.' {
        assert(base@ =~= seq!['.'] || base@ =~= seq!['.', '.']);
        return None;
    }
    assert(base@ != seq!['.'] && base@ != seq!['.', '.']);
    match last_index_of(base, '.') {
        Some(p) => if p > 0 {
            let r = String::from_str(base.substring_char(0, p));
            assert(r@ =~= base@.take(p as int));
            Some(r)
        } else {
            Some(String::from_str(base))
        },
        None => Some(String::from_str(base)),
    }
}

/// The name of the entry point that handles `action` for the table `table`.
pub fn entry_point_name(table: &str, action: Action) -> (r: String)
    ensures
        r@ == entry_point(table@, action),
{
    match action {
        Action::Press => String::from_str(table).concat(".Press"),
        Action::Release => String::from_str(table).concat(".Release"),
    }
}

/// The candidate locations of the script `script` for the home directory
/// `home`, in search order.
pub fn script_search_paths(script: &str, home: &str) -> (r: Vec<String>)
    ensures
        string_views(r@) == script_candidates(script@, home@),
        r@.len() == SCRIPT_CANDIDATE_COUNT,
{
    proof {
        lemma_script_candidate_count(script@, home@);
    }
    let names = vec![script];
    assert(crate::constants::views_of(names@) =~= seq![script@]);
    search(&script_file_paths(), &names, home)
}

/// The file of the script `script`: the first candidate location, in search
/// order, that `present` marks as an existing file.
pub fn find_script(script: &str, home: &str, present: &Vec<bool>) -> (r: Option<String>)
    requires
        present@.len() == SCRIPT_CANDIDATE_COUNT,
    ensures
        opt_view(r) == first_present(script_candidates(script@, home@), present@),
{
    let candidates = script_search_paths(script, home);
    pick_first(&candidates, present)
}

/// What was found on disk for the script of one binding.
#[derive(Debug, Clone)]
pub enum ScriptSource {
    /// No script root holds the file.
    Missing,
    /// The file exists at this path but could not be read.
    Unreadable(String),
    /// The file exists at this path but could not be registered for watching.
    Unwatchable(String),
    /// The file at the first path holds the text in the second.
    Text(String, String),
}

/// The path a source was found at; empty where it was missing.
pub open spec fn source_path(source: ScriptSource) -> Seq<char> {
    match source {
        ScriptSource::Missing => seq![],
        ScriptSource::Unreadable(p) => p@,
        ScriptSource::Unwatchable(p) => p@,
        ScriptSource::Text(p, _) => p@,
    }
}

/// The text that loading `source` for the script reference `script` runs in
/// the interpreter: its content where it was read and the reference names a
/// table; nothing otherwise.
pub open spec fn source_run(source: ScriptSource, script: Seq<char>) -> Seq<Seq<char>> {
    match source {
        ScriptSource::Text(_, text) => if table_name(script) is Some {
            seq![text@]
        } else {
            seq![]
        },
        _ => seq![],
    }
}

/// The texts that loading `sources` for the bindings `entries` runs, in order.
pub open spec fn sources_run(sources: Seq<ScriptSource>, entries: Seq<(u32, Seq<char>)>) -> Seq<
    Seq<char>,
>
    decreases sources.len(),
{
    if sources.len() == 0 {
        seq![]
    } else {
        let n: int = sources.len() - 1;
        sources_run(sources.drop_last(), entries) + source_run(sources[n], entries[n].1)
    }
}

/// Which of a list of load outcomes succeeded.
pub open spec fn successes(outcomes: Seq<Result<(), ScriptError>>) -> Seq<bool> {
    outcomes.map_values(|o: Result<(), ScriptError>| o is Ok)
}

/// The table after binding, in order, each entry of `entries` whose flag in
/// `ok` is set: a later entry for the same identifier replaces an earlier one.
pub open spec fn bind_all(
    table: Map<u32, Seq<char>>,
    entries: Seq<(u32, Seq<char>)>,
    ok: Seq<bool>,
) -> Map<u32, Seq<char>>
    decreases ok.len(),
{
    if ok.len() == 0 {
        table
    } else {
        let n: int = ok.len() - 1;
        let prev = bind_all(table, entries, ok.drop_last());
        if ok[n] {
            prev.insert(entries[n].0, table_name(entries[n].1)->Some_0)
        } else {
            prev
        }
    }
}

/// The watched paths after adding, in order, each path of `paths` whose flag
/// in `ok` is set.
pub open spec fn watch_all(watched: Seq<Seq<char>>, paths: Seq<Seq<char>>, ok: Seq<bool>) -> Seq<
    Seq<char>,
>
    decreases ok.len(),
{
    if ok.len() == 0 {
        watched
    } else {
        let n: int = ok.len() - 1;
        let prev = watch_all(watched, paths, ok.drop_last());
        if ok[n] {
            with_path(prev, paths[n])
        } else {
            prev
        }
    }
}

/// The scripting environment, the binding from control identifiers to the
/// table names of loaded scripts, and the script files registered for
/// watching. A binding is recorded only after its script has run without
/// error.
pub struct Script {
    lua: mlua::Lua,
    script_map: HashMap<u32, String>,
    watched: Vec<String>,
    ran: Ghost<Seq<Seq<char>>>,
}

impl Script {
    /// The table name bound to each identifier.
    pub closed spec fn table(&self) -> Map<u32, Seq<char>> {
        self.script_map@.map_values(|s: String| s@)
    }

    /// The script files registered for watching, in order of registration.
    pub closed spec fn watched_paths(&self) -> Seq<Seq<char>> {
        string_views(self.watched@)
    }

    /// Every text handed to the interpreter so far, in order.
    pub closed spec fn ran(&self) -> Seq<Seq<char>> {
        self.ran@
    }

    /// The table name that `key` resolves to, if it is bound.
    pub open spec fn resolves_to(&self, key: u32) -> Option<Seq<char>> {
        self.table().get(key)
    }

    /// Whether `after` is `before` with at most the interpreter's bindings of
    /// one table replaced: the same identifiers resolve to the same table
    /// names and the same files are watched.
    pub open spec fn reloaded(before: Script, after: Script) -> bool {
        &&& after.table() == before.table()
        &&& after.watched_paths() == before.watched_paths()
    }

    /// A table over the interpreter `lua`, with nothing bound, watched or run.
    /// The interpreter is expected to provide the callables scripts use to
    /// issue key commands.
    pub fn new(lua: mlua::Lua) -> (r: Script)
        ensures
            r.table() == Map::<u32, Seq<char>>::empty(),
            r.watched_paths() == Seq::<Seq<char>>::empty(),
            r.ran() == Seq::<Seq<char>>::empty(),
    {
        let r = Script {
            lua,
            script_map: HashMap::new(),
            watched: Vec::new(),
            ran: Ghost(Seq::empty()),
        };
        assert(r.table() =~= Map::<u32, Seq<char>>::empty());
        assert(r.watched_paths() =~= Seq::<Seq<char>>::empty());
        r
    }

    /// Hands `source` to the interpreter, once.
    fn run(&mut self, source: &str) -> (r: Result<(), mlua::Error>)
        ensures
            final(self).ran() == old(self).ran().push(source@),
            final(self).table() == old(self).table(),
            final(self).watched_paths() == old(self).watched_paths(),
    {
        let r = exec_chunk(&self.lua, source);
        self.ran = Ghost(self.ran@.push(source@));
        r
    }

    /// Registers `path` for watching, where it is not registered yet.
    fn watch(&mut self, path: &str)
        ensures
            final(self).watched_paths() == with_path(old(self).watched_paths(), path@),
            final(self).table() == old(self).table(),
            final(self).ran() == old(self).ran(),
    {
        if !self.is_watched(path) {
            self.watched.push(String::from_str(path));
            assert(self.watched_paths() =~= old(self).watched_paths().push(path@));
        }
    }

    /// Whether `path` is registered for watching.
    pub fn is_watched(&self, path: &str) -> (r: bool)
        ensures
            r == self.watched_paths().contains(path@),
    {
        let mut i: usize = 0;
        while i < self.watched.len()
            invariant
                i <= self.watched.len(),
                forall|j: int| 0 <= j < i ==> self.watched_paths()[j] != path@,
            decreases self.watched.len() - i,
        {
            if same_text(self.watched[i].as_str(), path) {
                assert(self.watched_paths()[i as int] == path@);
                return true;
            }
            i = i + 1;
        }
        false
    }

    /// Runs the script text `source`, read from `path`, once; where it runs
    /// without error, binds `mapping.key` to the script's table name and
    /// registers `path` for watching. Either both happen or, on failure,
    /// neither. A reference that names no table is refused before anything
    /// runs.
    pub fn load_script_mapping(&mut self, path: &str, source: &str, mapping: &Mapping) -> (r: Result<(), ScriptError>)
        ensures
            r is Ok ==> table_name(mapping.script@) is Some,
            table_name(mapping.script@) is None ==> r is Err && final(self).ran() == old(self).ran(),
            table_name(mapping.script@) is Some ==> final(self).ran() == old(self).ran().push(source@),
            match r {
                Ok(()) => {
                    &&& final(self).table() == old(self).table().insert(
                        mapping.key,
                        table_name(mapping.script@)->Some_0,
                    )
                    &&& final(self).watched_paths() == with_path(old(self).watched_paths(), path@)
                },
                Err(e) => {
                    &&& e is Load
                    &&& final(self).table() == old(self).table()
                    &&& final(self).watched_paths() == old(self).watched_paths()
                },
            },
    {
        let name = match table_name_of(mapping.script.as_str()) {
            Some(name) => name,
            None => {
                return Err(
                    ScriptError::Load(
                        LoadScriptError,
                        String::from_str("the script reference names no file"),
                    ),
                );
            },
        };
        match self.run(source) {
            Ok(()) => {},
            Err(e) => {
                return Err(ScriptError::Load(LoadScriptError, error_text(&e)));
            },
        }
        self.watch(path);
        self.script_map.insert(mapping.key, name);
        assert(self.table() =~= old(self).table().insert(
            mapping.key,
            table_name(mapping.script@)->Some_0,
        ));
        Ok(())
    }

    /// Runs anew, once, the text `source` of the watched script file `path`.
    /// Only the interpreter's bindings change: every identifier resolves as
    /// before, whether the reload succeeds or not. A path that is not watched
    /// is refused and nothing runs.
    pub fn load_script(&mut self, path: &str, source: &str) -> (r: Result<(), ScriptError>)
        ensures
            Script::reloaded(*old(self), *final(self)),
            !old(self).watched_paths().contains(path@) ==> {
                &&& r matches Err(ScriptError::NotFound(_))
                &&& final(self).ran() == old(self).ran()
            },
            old(self).watched_paths().contains(path@) ==> {
                &&& (r is Ok || r matches Err(ScriptError::Load(_, _)))
                &&& final(self).ran() == old(self).ran().push(source@)
            },
    {
        if !self.is_watched(path) {
            return Err(ScriptError::NotFound(ScriptNotFound));
        }
        match self.run(source) {
            Ok(()) => Ok(()),
            Err(e) => Err(ScriptError::Load(LoadScriptError, error_text(&e))),
        }
    }

    /// Loads the script of every binding of `conf`, in order, from what was
    /// found on disk for it (`sources`, one per binding). A binding that fails
    /// is skipped and the rest are still loaded; the result gives, per
    /// binding, whether it loaded or why not. A later binding for the same
    /// identifier replaces an earlier one. Only read sources whose reference
    /// names a table are run, each once, in order.
    pub fn load_mapping(&mut self, conf: &Config, sources: &Vec<ScriptSource>) -> (r: Vec<
        Result<(), ScriptError>,
    >)
        requires
            sources.len() == conf.mappings.len(),
        ensures
            r.len() == conf.mappings.len(),
            forall|i: int|
                0 <= i < r.len() ==> match sources[i] {
                    ScriptSource::Missing => r[i] matches Err(ScriptError::NotFound(_)),
                    ScriptSource::Unreadable(_) => r[i] matches Err(ScriptError::Load(_, _)),
                    ScriptSource::Unwatchable(_) => r[i] matches Err(ScriptError::Watch(_)),
                    ScriptSource::Text(_, _) => #[trigger] r[i] is Ok || r[i] matches Err(
                        ScriptError::Load(_, _),
                    ),
                },
            forall|i: int|
                0 <= i < r.len() && #[trigger] r[i] is Ok ==> table_name(
                    conf.mappings[i].script@,
                ) is Some,
            final(self).table() == bind_all(old(self).table(), conf.entries(), successes(r@)),
            final(self).watched_paths() == watch_all(
                old(self).watched_paths(),
                sources@.map_values(|s: ScriptSource| source_path(s)),
                successes(r@),
            ),
            final(self).ran() == old(self).ran() + sources_run(sources@, conf.entries()),
    {
        let ghost paths = sources@.map_values(|s: ScriptSource| source_path(s));
        let ghost entries = conf.entries();
        let mut results: Vec<Result<(), ScriptError>> = Vec::new();
        assert(successes(results@) =~= seq![]);
        assert(sources@.take(0) =~= seq![]);
        assert(self.ran() =~= old(self).ran() + sources_run(sources@.take(0), entries));
        for i in 0..conf.mappings.len()
            invariant
                sources.len() == conf.mappings.len(),
                paths == sources@.map_values(|s: ScriptSource| source_path(s)),
                entries == conf.entries(),
                results.len() == i,
                forall|j: int|
                    0 <= j < i ==> match sources[j] {
                        ScriptSource::Missing => results[j] matches Err(ScriptError::NotFound(_)),
                        ScriptSource::Unreadable(_) => results[j] matches Err(
                            ScriptError::Load(_, _),
                        ),
                        ScriptSource::Unwatchable(_) => results[j] matches Err(
                            ScriptError::Watch(_),
                        ),
                        ScriptSource::Text(_, _) => #[trigger] results[j] is Ok || results[j] matches Err(
                            ScriptError::Load(_, _),
                        ),
                    },
                forall|j: int|
                    0 <= j < i && #[trigger] results[j] is Ok ==> table_name(
                        conf.mappings[j].script@,
                    ) is Some,
                self.table() == bind_all(old(self).table(), entries, successes(results@)),
                self.watched_paths() == watch_all(
                    old(self).watched_paths(),
                    paths,
                    successes(results@),
                ),
                self.ran() == old(self).ran() + sources_run(sources@.take(i as int), entries),
        {
            let ghost ran_before = self.ran();
            let outcome = match &sources[i] {
                ScriptSource::Missing => Err(ScriptError::NotFound(ScriptNotFound)),
                ScriptSource::Unreadable(_) => Err(
                    ScriptError::Load(LoadScriptError, String::from_str("the script file could not be read")),
                ),
                ScriptSource::Unwatchable(_) => Err(ScriptError::Watch(WatchError)),
                ScriptSource::Text(path, text) => {
                    let r = self.load_script_mapping(path.as_str(), text.as_str(), &conf.mappings[i]);
                    assert(paths[i as int] == path@);
                    r
                },
            };
            assert(entries[i as int] == conf.mappings@[i as int]@);
            assert(sources@.take(i + 1).drop_last() =~= sources@.take(i as int));
            assert(self.ran() =~= ran_before + source_run(sources@[i as int], entries[i as int].1));
            assert(self.ran() =~= old(self).ran() + sources_run(sources@.take(i + 1), entries));
            let ghost prev = results@;
            results.push(outcome);
            assert(successes(results@).drop_last() =~= successes(prev));
        }
        assert(sources@.take(conf.mappings.len() as int) =~= sources@);
        results
    }

    /// The table name bound to `key`, if any.
    pub fn resolve(&self, key: u32) -> (r: Option<String>)
        ensures
            opt_view(r) == self.resolves_to(key),
    {
        match self.script_map.get(&key) {
            Some(name) => Some(name.clone()),
            None => None,
        }
    }

    /// Routes one device event: where its identifier is bound, hands the
    /// interpreter the call `<table>.Press()` or `<table>.Release()`, once,
    /// and returns the entry point's name; an unbound identifier is dropped,
    /// runs nothing and gives `None`. A script error is returned, never
    /// raised.
    pub fn dispatch(&mut self, event: &Event) -> (r: Result<Option<String>, ScriptRuntimeError>)
        ensures
            Script::reloaded(*old(self), *final(self)),
            match old(self).resolves_to(event.key) {
                None => {
                    &&& r matches Ok(None)
                    &&& final(self).ran() == old(self).ran()
                },
                Some(table) => {
                    &&& final(self).ran() == old(self).ran().push(
                        entry_point(table, event.action) + "()"@,
                    )
                    &&& match r {
                        Ok(Some(name)) => name@ == entry_point(table, event.action),
                        Ok(None) => false,
                        Err(e) => e.entry@ == entry_point(table, event.action),
                    }
                },
            },
    {
        let table = match self.resolve(event.key) {
            Some(table) => table,
            None => {
                return Ok(None);
            },
        };
        let entry = entry_point_name(table.as_str(), event.action);
        let call = entry.clone().concat("()");
        match self.run(call.as_str()) {
            Ok(()) => Ok(Some(entry)),
            Err(e) => Err(ScriptRuntimeError { entry, detail: error_text(&e) }),
        }
    }
}

/// A reload of a script, failed or not, removes no binding: every identifier
/// resolves afterwards to the table name it resolved to before.
pub proof fn lemma_reload_keeps_bindings(before: Script, after: Script, key: u32)
    requires
        Script::reloaded(before, after),
    ensures
        after.resolves_to(key) == before.resolves_to(key),
{
}

} // verus!
