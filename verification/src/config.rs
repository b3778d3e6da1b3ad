use vstd::prelude::*;
use crate::text::{decimal, has_suffix, lex_le};

verus! {

/// Where the web dashboard listens.
#[derive(Clone, Debug, Default)]
pub struct WebServerConf {
    pub port: u16,
    pub listen_addr: String,
}

impl WebServerConf {
    /// `listen_addr:port`, the address the dashboard binds.
    pub fn into_addr(&self) -> (s: String)
        ensures
            s@ == self.listen_addr@ + ":"@ + decimal(self.port as nat),
    {
        let mut s = crate::text::owned(self.listen_addr.as_str());
        crate::text::append_str(&mut s, ":");
        let port = crate::text::decimal_u64(self.port as u64);
        crate::text::append_str(&mut s, port.as_str());
        s
    }

    /// `http://listen_addr:port`, the dashboard's URL.
    pub fn into_http_addr(&self) -> (s: String)
        ensures
            s@ == "http://"@ + self.listen_addr@ + ":"@ + decimal(self.port as nat),
    {
        let addr = self.into_addr();
        let s = crate::text::concat("http://", addr.as_str());
        s
    }
}

/// How one managed program is started and kept.
#[derive(Clone, Debug)]
pub struct ProgramConfig {
    /// The unique name; also the target of `start` and `stop`.
    pub name: String,
    /// The command line, run through the platform's shell.
    pub command: String,
    /// The working directory; the daemon's own when absent.
    pub directory: Option<String>,
    /// Start the program when the daemon comes up.
    pub autostart: bool,
    /// Start the program again after it exits.
    pub autorestart: bool,
    /// Environment variables handed to the program (their order carries
    /// no meaning).
    pub environment: Option<Vec<(String, String)>>,
    /// File that receives the program's standard output, appended.
    pub stdout_logfile: Option<String>,
    /// File that receives the program's standard error, appended.
    pub stderr_logfile: Option<String>,
}

/// The value that `autostart` and `autorestart` take when a program file
/// leaves them out.
pub fn default_true() -> (b: bool)
    ensures
        b,
{
    true
}

/// The daemon's configuration: web settings and the programs, one per name.
#[derive(Clone, Debug)]
pub struct Config {
    pub web: WebServerConf,
    pub program: Vec<ProgramConfig>,
}

/// The names of `programs`.
pub open spec fn program_names(programs: Seq<ProgramConfig>) -> Seq<Seq<char>> {
    programs.map_values(|p: ProgramConfig| p.name@)
}

/// The first `n` names are pairwise distinct.
pub open spec fn distinct_prefix(names: Seq<Seq<char>>, n: int) -> bool {
    forall|i: int, j: int| 0 <= i < j < n ==> #[trigger] names[i] != #[trigger] names[j]
}

/// No two programs share a name.
pub open spec fn unique_names(programs: Seq<ProgramConfig>) -> bool {
    distinct_prefix(program_names(programs), programs.len() as int)
}

/// The position of the first program named `name`.
pub open spec fn first_program(programs: Seq<ProgramConfig>, name: Seq<char>) -> Option<int> {
    if exists|i: int| 0 <= i < programs.len() && #[trigger] programs[i].name@ == name {
        Some(choose|i: int| 0 <= i < programs.len() && #[trigger] programs[i].name@ == name && forall|k: int| 0 <= k < i ==> #[trigger] programs[k].name@ != name)
    } else {
        None
    }
}

impl Config {
    /// No two programs share a name.
    pub open spec fn wf(&self) -> bool {
        unique_names(self.program@)
    }

    /// The position of the program named `name`.
    pub fn find_program(&self, name: &str) -> (r: Option<usize>)
        ensures
            match r {
                Some(i) => i < self.program@.len() && self.program@[i as int].name@ == name@ && forall|k: int| 0 <= k < i ==> #[trigger] self.program@[k].name@ != name@,
                None => forall|i: int| 0 <= i < self.program@.len() ==> #[trigger] self.program@[i].name@ != name@,
            },
    {
        let mut i: usize = 0;
        while i < self.program.len()
            invariant
                i <= self.program.len(),
                forall|k: int| 0 <= k < i ==> #[trigger] self.program@[k].name@ != name@,
            decreases self.program.len() - i,
        {
            if crate::text::text_eq(self.program[i].name.as_str(), name) {
                return Some(i);
            }
            i = i + 1;
        }
        None
    }
}

/// Why a configuration directory was refused.
#[derive(Clone, Debug)]
pub enum ConfigError {
    /// The base `config.toml` holds programs; they belong under `app/`.
    BaseHasPrograms,
    /// Two program files use this name; `file` is the later one.
    DuplicateName { name: String, file: String },
}

/// A file name whose extension is exactly `toml` (`Path::extension`): it
/// ends in `.toml` and something stands before that dot.
pub open spec fn is_program_file_name(name: Seq<char>) -> bool {
    has_suffix(name, ".toml"@) && name.len() > 5
}

/// The file `name` in a program directory is read as a program.
pub fn is_program_file(name: &str) -> (b: bool)
    ensures
        b == is_program_file_name(name@),
{
    proof {
        reveal_strlit(".toml");
    }
    let ends = crate::text::ends_with(name, ".toml");
    let n = crate::text::chars_of(name);
    ends && n.len() > 5
}

/// The names in non-decreasing lexicographic order.
pub open spec fn names_sorted(s: Seq<String>) -> bool {
    forall|i: int, j: int| 0 <= i < j < s.len() ==> lex_le(#[trigger] s[i]@, #[trigger] s[j]@)
}

/// The file names of a program directory that are read as programs, in the
/// order they are read: by name, ascending.
pub fn program_files(names: Vec<String>) -> (files: Vec<String>)
    ensures
        names_sorted(files@),
        files@.to_multiset() == names@.to_multiset().filter(|n: String| is_program_file_name(n@)),
{
    broadcast use vstd::seq_lib::group_to_multiset_ensures, vstd::multiset::group_multiset_axioms;
    let ghost f = |n: String| is_program_file_name(n@);
    let mut picked: Vec<(String, ())> = Vec::new();
    let ghost mut picked_names: Seq<String> = Seq::empty();
    let mut rest = names;
    let ghost original = rest@;
    while rest.len() > 0
        invariant
            f == (|n: String| is_program_file_name(n@)),
            picked@ == picked_names.map_values(|n: String| (n, ())),
            rest@.to_multiset().filter(f).add(picked_names.to_multiset()) == original.to_multiset().filter(f),
        decreases rest.len(),
    {
        let ghost before = rest@;
        let name = rest.pop().unwrap();
        proof {
            assert(before =~= rest@.push(name));
            vstd::seq_lib::to_multiset_build(rest@, name);
        }
        if is_program_file(name.as_str()) {
            proof {
                vstd::seq_lib::to_multiset_build(picked_names, name);
                assert(f(name));
                assert forall|x: String| #[trigger] before.to_multiset().filter(f).count(x) == rest@.to_multiset().filter(f).insert(name).count(x) by {
                    if x == name {
                        assert(f(x));
                    }
                }
                assert(before.to_multiset().filter(f) =~= rest@.to_multiset().filter(f).insert(name));
                let old_picked = picked_names;
                picked_names = picked_names.push(name);
                assert(picked_names.to_multiset() == old_picked.to_multiset().insert(name));
                assert(rest@.to_multiset().filter(f).add(picked_names.to_multiset()) =~= before.to_multiset().filter(f).add(old_picked.to_multiset()));
            }
            picked.push((name, ()));
            assert(picked@ =~= picked_names.map_values(|n: String| (n, ())));
        } else {
            assert(!f(name));
            assert forall|x: String| #[trigger] before.to_multiset().filter(f).count(x) == rest@.to_multiset().filter(f).count(x) by {
                if x == name {
                    assert(!f(x));
                }
            }
            assert(before.to_multiset().filter(f) =~= rest@.to_multiset().filter(f));
        }
    }
    let sorted = crate::sorting::sort_by_name(picked);
    let ghost sorted_view = sorted@;
    let mut files: Vec<String> = Vec::new();
    let mut rest2 = sorted;
    let ghost mut taken: Seq<(String, ())> = Seq::empty();
    while rest2.len() > 0
        invariant
            taken + rest2@ == sorted_view,
            files@ == taken.map_values(|e: (String, ())| e.0),
        decreases rest2.len(),
    {
        let item = rest2.remove(0);
        proof {
            taken = taken.push(item);
        }
        files.push(item.0);
        assert(files@ =~= taken.map_values(|e: (String, ())| e.0));
    }
    proof {
        assert(rest2@ =~= Seq::<(String, ())>::empty());
        assert(taken =~= sorted_view);
        assert(original.to_multiset().filter(f) =~= picked_names.to_multiset()) by {
            assert(Seq::<String>::empty().to_multiset() =~= vstd::multiset::Multiset::empty());
        }
        lemma_map_unit_multiset(picked_names);
        lemma_map_unit_multiset(files@);
        assert forall|i: int| 0 <= i < sorted_view.len() implies #[trigger] with_unit(files@)[i] == sorted_view[i] by {
            let x = sorted_view[i];
            assert(x.1 == ());
        }
        assert(with_unit(files@) =~= sorted_view);
        assert(with_unit(picked_names) =~= picked@);
        assert forall|n: String| #[trigger] files@.to_multiset().count(n) == picked_names.to_multiset().count(n) by {
            assert(with_unit(files@).to_multiset().count((n, ())) == with_unit(picked_names).to_multiset().count((n, ())));
        }
        assert(files@.to_multiset() =~= picked_names.to_multiset());
    }
    files
}

/// `s` with each name paired with `()`.
spec fn with_unit(s: Seq<String>) -> Seq<(String, ())> {
    s.map_values(|x: String| (x, ()))
}

proof fn lemma_map_unit_multiset(s: Seq<String>)
    ensures
        forall|n: String| #[trigger] with_unit(s).to_multiset().count((n, ())) == s.to_multiset().count(n),
    decreases s.len(),
{
    broadcast use vstd::seq_lib::group_to_multiset_ensures, vstd::multiset::group_multiset_axioms;
    if s.len() > 0 {
        lemma_map_unit_multiset(s.drop_last());
        assert(s =~= s.drop_last().push(s.last()));
        assert(with_unit(s) =~= with_unit(s.drop_last()).push((s.last(), ())));
        vstd::seq_lib::to_multiset_build(s.drop_last(), s.last());
        vstd::seq_lib::to_multiset_build(with_unit(s.drop_last()), (s.last(), ()));
    } else {
        assert(with_unit(s) =~= Seq::<(String, ())>::empty());
    }
}

/// Position of the first program whose name an earlier program already
/// uses, or `None` when all names are distinct.
pub open spec fn first_duplicate(names: Seq<Seq<char>>) -> Option<int> {
    if distinct_prefix(names, names.len() as int) {
        None
    } else {
        Some(choose|k: int| 0 <= k < names.len() && distinct_prefix(names, k) && names.take(k).contains(names[k]))
    }
}

/// The names of the loaded programs, in load order.
pub open spec fn loaded_names(loaded: Seq<(String, ProgramConfig)>) -> Seq<Seq<char>> {
    loaded.map_values(|e: (String, ProgramConfig)| e.1.name@)
}

/// The base file may hold only base settings: a base file with programs is
/// refused (they belong under `app/`).  This is checked before the program
/// directory is looked at.
pub fn check_base_settings(base_has_programs: bool) -> (r: Result<(), ConfigError>)
    ensures
        base_has_programs ==> r matches Err(ConfigError::BaseHasPrograms),
        !base_has_programs ==> r is Ok,
{
    if base_has_programs {
        Err(ConfigError::BaseHasPrograms)
    } else {
        Ok(())
    }
}

/// Combines the base settings with the programs read from the program
/// directory (each with the file it came from, in reading order).  No two
/// programs may share a name; the error names the first program whose name
/// was already taken and its file.
pub fn assemble_config(
    web: WebServerConf,
    loaded: Vec<(String, ProgramConfig)>,
) -> (r: Result<Config, ConfigError>)
    ensures
        first_duplicate(loaded_names(loaded@)) is None ==> (r matches Ok(c) && c.web == web && c.program@ == loaded@.map_values(|e: (String, ProgramConfig)| e.1) && c.wf()),
        first_duplicate(loaded_names(loaded@)) is Some ==> (r matches Err(ConfigError::DuplicateName { name, file }) && {
            let k = first_duplicate(loaded_names(loaded@))->0;
            &&& 0 <= k < loaded@.len()
            &&& name@ == loaded@[k].1.name@
            &&& file@ == loaded@[k].0@
        }),
{
    let ghost names = loaded_names(loaded@);
    let mut k: usize = 0;
    while k < loaded.len()
        invariant
            names == loaded_names(loaded@),
            k <= loaded.len(),
            distinct_prefix(names, k as int),
        decreases loaded.len() - k,
    {
        let mut j: usize = 0;
        while j < k
            invariant
                names == loaded_names(loaded@),
                    j <= k < loaded.len(),
                distinct_prefix(names, k as int),
                forall|m: int| 0 <= m < j ==> names[m] != names[k as int],
            decreases k - j,
        {
            if crate::text::text_eq(loaded[j].1.name.as_str(), loaded[k].1.name.as_str()) {
                proof {
                    assert(names.take(k as int)[j as int] == names[k as int]);
                    assert(names.take(k as int).contains(names[k as int]));
                    lemma_first_duplicate_unique(names, k as int);
                }
                let name = loaded[k].1.name.clone();
                let file = loaded[k].0.clone();
                return Err(ConfigError::DuplicateName { name, file });
            }
            j = j + 1;
        }
        proof {
            assert forall|a: int, b: int| 0 <= a < b < k + 1 implies #[trigger] names[a] != #[trigger] names[b] by {
                if b == k {
                    assert(names[a] != names[k as int]);
                }
            }
        }
        k = k + 1;
    }
    let ghost lv = loaded@;
    let mut program: Vec<ProgramConfig> = Vec::new();
    let mut rest = loaded;
    let ghost mut taken: Seq<(String, ProgramConfig)> = Seq::empty();
    while rest.len() > 0
        invariant
            taken + rest@ == lv,
            program@ == taken.map_values(|e: (String, ProgramConfig)| e.1),
        decreases rest.len(),
    {
        let ghost old_rest = rest@;
        let item = rest.remove(0);
        proof {
            assert(taken.push(item) + rest@ =~= taken + old_rest);
            taken = taken.push(item);
        }
        program.push(item.1);
        assert(program@ =~= taken.map_values(|e: (String, ProgramConfig)| e.1));
    }
    proof {
        assert(taken =~= lv);
        assert(program_names(program@) =~= names);
    }
    Ok(Config { web, program })
}

proof fn lemma_first_duplicate_unique(names: Seq<Seq<char>>, k: int)
    requires
        0 <= k < names.len(),
        distinct_prefix(names, k),
        names.take(k).contains(names[k]),
    ensures
        first_duplicate(names) == Some(k),
{
    let i = choose|i: int| 0 <= i < k && names.take(k)[i] == names[k];
    assert(names[i] == names[k]);
    assert(!distinct_prefix(names, names.len() as int));
    let c = choose|c: int| 0 <= c < names.len() && distinct_prefix(names, c) && names.take(c).contains(names[c]);
    assert(0 <= c < names.len() && distinct_prefix(names, c) && names.take(c).contains(names[c]));
    if c < k {
        let ci = choose|ci: int| 0 <= ci < c && names.take(c)[ci] == names[c];
        assert(names[ci] == names[c]);
        assert(false);
    } else if c > k {
        assert(names[i] == names[k]);
        assert(false);
    }
}

/// What reading one program file gave: the program, or the reason it could
/// not be read.
#[derive(Clone, Debug)]
pub enum ProgramFile {
    Parsed(ProgramConfig),
    Unreadable(String),
}

/// The programs of the files that could be read, each with its file, in
/// reading order; unreadable files are left out.
pub open spec fn readable(files: Seq<(String, ProgramFile)>) -> Seq<(String, ProgramConfig)>
    decreases files.len(),
{
    if files.len() == 0 {
        Seq::empty()
    } else {
        let rest = readable(files.drop_last());
        match files.last().1 {
            ProgramFile::Parsed(p) => rest.push((files.last().0, p)),
            ProgramFile::Unreadable(_) => rest,
        }
    }
}

/// Skips the program files that could not be read (see `readable`).
pub fn readable_programs(files: Vec<(String, ProgramFile)>) -> (out: Vec<(String, ProgramConfig)>)
    ensures
        out@ == readable(files@),
{
    let ghost all = files@;
    let mut out: Vec<(String, ProgramConfig)> = Vec::new();
    let mut rest = files;
    let ghost mut taken: Seq<(String, ProgramFile)> = Seq::empty();
    while rest.len() > 0
        invariant
            taken + rest@ == all,
            out@ == readable(taken),
        decreases rest.len(),
    {
        let ghost old_rest = rest@;
        let item = rest.remove(0);
        let ghost old_taken = taken;
        proof {
            assert(taken.push(item) + rest@ =~= taken + old_rest);
            taken = taken.push(item);
            assert(taken.drop_last() =~= old_taken);
            assert(taken.last() == item);
        }
        let (file, outcome) = item;
        match outcome {
            ProgramFile::Parsed(p) => {
                out.push((file, p));
            },
            ProgramFile::Unreadable(_) => {},
        }
    }
    proof {
        assert(taken =~= all);
    }
    out
}

} // verus!
