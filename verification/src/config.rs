//! Unit definitions and the service registry.
//!
//! A unit file parses into a [`Config`]; the registry maps unit names to
//! their configurations and is replaced wholesale on reload. Reading and
//! parsing the files is the embedding application's part: it hands `load`
//! the per-file outcomes, and the registry decides — one bad file aborts
//! the whole reload and leaves the previous snapshot untouched.

use vstd::prelude::*;

verus! {

use vstd::string::StringExecFns;
use crate::text::str_eq;

/// Whether a unit launches at server boot or only on demand.
#[derive(Debug, Clone, Copy, PartialEq, Eq, Structural)]
pub enum ServiceType {
    Simple,
    Startup,
}

/// The identity section of a unit file.
#[derive(Debug)]
pub struct Unit {
    pub name: String,
    pub description: Option<String>,
    /// Unrecognized fields, preserved as raw key/text pairs and ignored
    /// by the logic.
    pub other: Vec<(String, String)>,
}

/// The invocation section of a unit file.
#[derive(Debug)]
pub struct Service {
    pub style: ServiceType,
    pub path: String,
    pub args: Option<Vec<String>>,
    pub env: Option<Vec<(String, String)>>,
    pub stdout_path: Option<String>,
    pub stderr_path: Option<String>,
    /// Unrecognized fields, preserved and ignored.
    pub other: Vec<(String, String)>,
}

/// One whole unit definition, immutable until the next reload.
#[derive(Debug)]
pub struct Config {
    pub unit: Unit,
    pub service: Service,
    /// Unrecognized sections, preserved and ignored.
    pub other: Vec<(String, String)>,
}

impl Config {
    /// The unique key under which the registry files this unit.
    pub open spec fn spec_name(self) -> Seq<char> {
        self.unit.name@
    }
}

/// Why a reload failed: reading a directory entry, or parsing one file.
#[derive(Debug)]
pub enum Error {
    Io(String),
    Toml(String),
}

impl Error {
    /// The diagnostic rendering used in responses.
    pub open spec fn spec_text(self) -> Seq<char> {
        match self {
            Error::Io(m) => "Io("@ + m@ + ")"@,
            Error::Toml(m) => "Toml("@ + m@ + ")"@,
        }
    }

    /// Renders the error for a response.
    pub fn text(&self) -> (r: String)
        ensures
            r@ == self.spec_text(),
    {
        match self {
            Error::Io(m) => {
                let mut s = "Io(".to_owned();
                s.append(m.as_str());
                s.append(")");
                s
            },
            Error::Toml(m) => {
                let mut s = "Toml(".to_owned();
                s.append(m.as_str());
                s.append(")");
                s
            },
        }
    }
}

/// What became of one config-directory entry in the application's hands.
#[derive(Debug)]
pub enum ParseOutcome {
    Parsed(Config),
    Malformed(Error),
}

/// The name-to-definition mapping read off a sequence of loaded units;
/// a later unit shadows an earlier one of the same name, as a plain
/// insert-in-order would.
pub open spec fn map_of(units: Seq<Config>) -> Map<Seq<char>, Config>
    decreases units.len(),
{
    if units.len() == 0 {
        Map::empty()
    } else {
        map_of(units.drop_last()).insert(units.last().spec_name(), units.last())
    }
}

/// The error of the first malformed entry, if any.
pub open spec fn first_error(files: Seq<ParseOutcome>) -> Option<Error>
    decreases files.len(),
{
    if files.len() == 0 {
        None
    } else if files[0] is Malformed {
        Some(files[0]->Malformed_0)
    } else {
        first_error(files.drop_first())
    }
}

/// The configurations of a fully parsed batch, in file order.
pub open spec fn configs_of(files: Seq<ParseOutcome>) -> Seq<Config> {
    Seq::new(files.len(), |i: int| files[i]->Parsed_0)
}

/// No later unit bears the same name, so unit `i` is the one its name
/// resolves to.
pub open spec fn is_last_occurrence(units: Seq<Config>, i: int) -> bool {
    forall|j: int| i < j < units.len() ==> units[j].spec_name() != units[i].spec_name()
}

/// The store of unit definitions the server answers from.
pub struct Registry {
    units: Vec<Config>,
}

impl Registry {
    /// The loaded units, in file order.
    pub closed spec fn units_seq(self) -> Seq<Config> {
        self.units@
    }

    /// The mapping the registry answers lookups from.
    pub open spec fn map_view(self) -> Map<Seq<char>, Config> {
        map_of(self.units_seq())
    }

    /// An empty registry, as the server starts with.
    pub fn new() -> (r: Registry)
        ensures
            r.units_seq() == Seq::<Config>::empty(),
    {
        Registry { units: Vec::new() }
    }

    /// Replaces the whole store from one batch of parsed files, or — on
    /// the first malformed entry — reports its error and keeps the
    /// previous snapshot entirely: a reload is all-or-nothing, so no
    /// reader ever sees part of the old store beside part of the new.
    #[verifier::loop_isolation(false)]
    pub fn load(&mut self, files: Vec<ParseOutcome>) -> (r: Result<(), Error>)
        ensures
            match r {
                Ok(()) => first_error(files@) is None && final(self).units_seq() == configs_of(
                    files@,
                ),
                Err(e) => first_error(files@) == Some(e) && final(self).units_seq() == old(
                    self,
                ).units_seq(),
            },
    {
        let ghost orig = files@;
        let mut rest = files;
        let mut fresh: Vec<Config> = Vec::new();
        while rest.len() > 0
            invariant
                orig.len() == fresh@.len() + rest@.len(),
                rest@ == orig.subrange(fresh@.len() as int, orig.len() as int),
                forall|j: int| 0 <= j < fresh@.len() ==> orig[j] is Parsed,
                forall|j: int| 0 <= j < fresh@.len() ==> fresh@[j] == orig[j]->Parsed_0,
            decreases rest@.len(),
        {
            let ghost k = fresh@.len() as int;
            let f = rest.remove(0);
            proof {
                assert(f == orig[k]);
                assert(rest@ =~= orig.subrange(k + 1, orig.len() as int));
            }
            match f {
                ParseOutcome::Parsed(c) => fresh.push(c),
                ParseOutcome::Malformed(e) => {
                    proof {
                        lemma_first_error_at(orig, k);
                    }
                    return Err(e);
                },
            }
        }
        proof {
            lemma_first_error_none(orig);
            assert(fresh@ =~= configs_of(orig));
        }
        self.units = fresh;
        Ok(())
    }

    /// Looks a unit up by name: the definition the name maps to, or
    /// nothing when the name is unknown.
    pub fn get(&self, name: &str) -> (r: Option<&Config>)
        ensures
            match r {
                Some(c) => self.map_view().contains_key(name@) && *c == self.map_view()[name@],
                None => !self.map_view().contains_key(name@),
            },
    {
        let n = self.units.len();
        let mut i: usize = n;
        while i > 0
            invariant
                n == self.units_seq().len(),
                i <= n,
                forall|j: int| i <= j < n ==> self.units_seq()[j].spec_name() != name@,
            decreases i,
        {
            i = i - 1;
            if str_eq(self.units[i].unit.name.as_str(), name) {
                proof {
                    lemma_map_of_index(self.units_seq(), name@, i as int);
                }
                return Some(&self.units[i]);
            }
        }
        proof {
            lemma_map_of_absent(self.units_seq(), name@);
        }
        None
    }

    /// Whether a unit of this name is loaded.
    pub fn contains(&self, name: &str) -> (r: bool)
        ensures
            r == self.map_view().contains_key(name@),
    {
        self.get(name).is_some()
    }

    /// All loaded units in file order, shadowed duplicates included.
    pub fn units(&self) -> (r: &Vec<Config>)
        ensures
            r@ == self.units_seq(),
    {
        &self.units
    }

    /// The unit at a boot-walk position, if it is one to auto-launch:
    /// a `Startup`-style unit that its own name resolves to (a shadowed
    /// duplicate is skipped). The application walks the positions at boot
    /// and launches each unit this yields.
    pub fn startup_at(&self, i: usize) -> (r: Option<&Config>)
        ensures
            match r {
                Some(c) => i < self.units_seq().len() && *c == self.units_seq()[i as int]
                    && c.service.style is Startup && is_last_occurrence(self.units_seq(), i as int)
                    && self.map_view()[c.spec_name()] == *c,
                None => !(i < self.units_seq().len() && self.units_seq()[i as int].service.style
                    is Startup && is_last_occurrence(self.units_seq(), i as int)),
            },
    {
        let n = self.units.len();
        if i >= n {
            return None;
        }
        match self.units[i].service.style {
            ServiceType::Simple => None,
            ServiceType::Startup => {
                let mut j: usize = i + 1;
                while j < n
                    invariant
                        n == self.units_seq().len(),
                        i < j <= n,
                        forall|m: int|
                            i < m < j ==> self.units_seq()[m].spec_name()
                                != self.units_seq()[i as int].spec_name(),
                    decreases n - j,
                {
                    if str_eq(self.units[j].unit.name.as_str(), self.units[i].unit.name.as_str()) {
                        return None;
                    }
                    j = j + 1;
                }
                proof {
                    lemma_map_of_index(
                        self.units_seq(),
                        self.units_seq()[i as int].spec_name(),
                        i as int,
                    );
                }
                Some(&self.units[i])
            },
        }
    }
}

/// If everything before `k` parsed and entry `k` did not, then entry `k`
/// holds the first error.
proof fn lemma_first_error_at(files: Seq<ParseOutcome>, k: int)
    requires
        0 <= k < files.len(),
        forall|j: int| 0 <= j < k ==> files[j] is Parsed,
        files[k] is Malformed,
    ensures
        first_error(files) == Some(files[k]->Malformed_0),
    decreases k,
{
    if k > 0 {
        lemma_first_error_at(files.drop_first(), k - 1);
    }
}

/// A fully parsed batch has no first error.
proof fn lemma_first_error_none(files: Seq<ParseOutcome>)
    requires
        forall|j: int| 0 <= j < files.len() ==> files[j] is Parsed,
    ensures
        first_error(files) is None,
    decreases files.len(),
{
    if files.len() > 0 {
        lemma_first_error_none(files.drop_first());
    }
}

/// A reload is atomic as a reader sees it: whatever `load` returned, the
/// store afterwards is exactly the old one or exactly the new batch,
/// never part of each — and a failed reload leaves the old mapping
/// answering every lookup as before.
pub proof fn lemma_reload_unmixed(
    old_units: Seq<Config>,
    files: Seq<ParseOutcome>,
    r: Result<(), Error>,
    new_units: Seq<Config>,
)
    requires
        (match r {
            Ok(()) => first_error(files) is None && new_units == configs_of(files),
            Err(e) => first_error(files) == Some(e) && new_units == old_units,
        }),
    ensures
        new_units == old_units || new_units == configs_of(files),
        r is Err ==> map_of(new_units) == map_of(old_units),
        r is Err <==> first_error(files) is Some,
{
}

/// A unit with no later namesake is what the mapping holds for its name.
proof fn lemma_map_of_index(units: Seq<Config>, name: Seq<char>, i: int)
    requires
        0 <= i < units.len(),
        units[i].spec_name() == name,
        forall|j: int| i < j < units.len() ==> units[j].spec_name() != name,
    ensures
        map_of(units).contains_key(name),
        map_of(units)[name] == units[i],
    decreases units.len(),
{
    if i < units.len() - 1 {
        lemma_map_of_index(units.drop_last(), name, i);
    }
}

/// A name no unit bears is not in the mapping.
proof fn lemma_map_of_absent(units: Seq<Config>, name: Seq<char>)
    requires
        forall|j: int| 0 <= j < units.len() ==> units[j].spec_name() != name,
    ensures
        !map_of(units).contains_key(name),
    decreases units.len(),
{
    if units.len() > 0 {
        lemma_map_of_absent(units.drop_last(), name);
    }
}

} // verus!
