//! Protocol state model: what each remote operation does to the
//! repository's state.
//!
//! The remote service is the sole source of truth; the client holds no
//! durable state between calls. This module states, as spec-level effect
//! functions over `RepoView`, the committed state each protocol step leaves
//! behind, and gives an executable in-memory repository with exactly those
//! effects as its contracts. The executable model is log-structured: each
//! commit appends or replaces a record, and the view is the map the records
//! denote, later records shadowing earlier ones.

use vstd::prelude::*;

use crate::codec::canon;
use crate::codec::normalize_name;
use crate::errors::{ApiError, NotFoundKind};

verus! {

/// Spec-level state of one codebase.
#[verifier::ext_equal]
pub struct CodebaseView {
    pub version: nat,
    pub main: Seq<char>,
    pub files: Map<Seq<char>, Seq<u8>>,
    pub edit_files: Set<Seq<char>>,
}

/// Spec-level state of the repository service: its codebases, keyed by
/// canonical name, and the single active program.
#[verifier::ext_equal]
pub struct RepoView {
    pub codebases: Map<Seq<char>, CodebaseView>,
    pub active: Option<Seq<char>>,
}

/// A codebase as creation leaves it: version zero, a designated entry file
/// already present and empty, nothing staged.
pub open spec fn fresh_codebase() -> CodebaseView {
    CodebaseView {
        version: 0,
        main: "main.js"@,
        files: map!["main.js"@ => Seq::<u8>::empty()],
        edit_files: Set::empty(),
    }
}

/// Creation is idempotent: an existing codebase is left untouched.
pub open spec fn create_effect(r: RepoView, name: Seq<char>) -> RepoView {
    if r.codebases.contains_key(name) {
        r
    } else {
        RepoView { codebases: r.codebases.insert(name, fresh_codebase()), active: r.active }
    }
}

/// A write stores the bytes and stages the file in `edit_files`; a missing
/// codebase is left untouched.
pub open spec fn write_effect(r: RepoView, name: Seq<char>, file: Seq<char>, data: Seq<u8>) -> RepoView {
    if r.codebases.contains_key(name) {
        let cb = r.codebases[name];
        let cb2 = CodebaseView {
            version: cb.version,
            main: cb.main,
            files: cb.files.insert(file, data),
            edit_files: cb.edit_files.insert(file),
        };
        RepoView { codebases: r.codebases.insert(name, cb2), active: r.active }
    } else {
        r
    }
}

/// A publish commits the staged edits: the version advances by exactly one
/// and `edit_files` empties; the files themselves are already in place.
pub open spec fn publish_effect(r: RepoView, name: Seq<char>) -> RepoView {
    if r.codebases.contains_key(name) {
        let cb = r.codebases[name];
        let cb2 = CodebaseView {
            version: cb.version + 1,
            main: cb.main,
            files: cb.files,
            edit_files: Set::empty(),
        };
        RepoView { codebases: r.codebases.insert(name, cb2), active: r.active }
    } else {
        r
    }
}

/// Activation replaces any previously active program, never merges.
pub open spec fn activate_effect(r: RepoView, name: Seq<char>) -> RepoView {
    RepoView { codebases: r.codebases, active: Some(name) }
}

/// Deactivation clears the active program, whatever it was.
pub open spec fn deactivate_effect(r: RepoView) -> RepoView {
    RepoView { codebases: r.codebases, active: None }
}

/// What a read of `file` in `name` returns: the stored bytes, or nothing
/// when either the codebase or the file is absent.
pub open spec fn read_result(r: RepoView, name: Seq<char>, file: Seq<char>) -> Option<Seq<u8>> {
    if r.codebases.contains_key(name) && r.codebases[name].files.contains_key(file) {
        Some(r.codebases[name].files[file])
    } else {
        None
    }
}

/// One stored file: its canonical name and its bytes.
pub struct FileEntry {
    pub name: String,
    pub data: Vec<u8>,
}

/// One committed codebase record.
pub struct CodebaseState {
    pub name: String,
    pub version: u64,
    pub main: String,
    pub files: Vec<FileEntry>,
    pub edit_files: Vec<String>,
}

/// The in-memory repository: a log of codebase records, later records for a
/// name shadowing earlier ones, and the active program.
pub struct RepoModel {
    pub codebases: Vec<CodebaseState>,
    pub active: Option<String>,
}

/// The file map a record log denotes: later entries win.
pub open spec fn files_map(s: Seq<FileEntry>) -> Map<Seq<char>, Seq<u8>>
    decreases s.len(),
{
    if s.len() == 0 {
        Map::empty()
    } else {
        files_map(s.drop_last()).insert(s.last().name@, s.last().data@)
    }
}

/// The set of names a list of strings denotes.
pub open spec fn names_set(s: Seq<String>) -> Set<Seq<char>> {
    Set::new(|a: Seq<char>| exists|i: int| 0 <= i < s.len() && s[i]@ == a)
}

impl View for CodebaseState {
    type V = CodebaseView;

    open spec fn view(&self) -> CodebaseView {
        CodebaseView {
            version: self.version as nat,
            main: self.main@,
            files: files_map(self.files@),
            edit_files: names_set(self.edit_files@),
        }
    }
}

/// The codebase map a record log denotes: later records win.
pub open spec fn repo_map(s: Seq<CodebaseState>) -> Map<Seq<char>, CodebaseView>
    decreases s.len(),
{
    if s.len() == 0 {
        Map::empty()
    } else {
        repo_map(s.drop_last()).insert(s.last().name@, s.last()@)
    }
}

impl View for RepoModel {
    type V = RepoView;

    open spec fn view(&self) -> RepoView {
        RepoView {
            codebases: repo_map(self.codebases@),
            active: match self.active {
                Some(s) => Some(s@),
                None => None,
            },
        }
    }
}

proof fn lemma_repo_map_absent(s: Seq<CodebaseState>, key: Seq<char>)
    requires
        forall|j: int| 0 <= j < s.len() ==> s[j].name@ != key,
    ensures
        !repo_map(s).contains_key(key),
    decreases s.len(),
{
    if s.len() > 0 {
        assert(forall|j: int| 0 <= j < s.len() - 1 ==> s.drop_last()[j] == s[j]);
        lemma_repo_map_absent(s.drop_last(), key);
    }
}

proof fn lemma_repo_map_found(s: Seq<CodebaseState>, key: Seq<char>, i: int)
    requires
        0 <= i < s.len(),
        s[i].name@ == key,
        forall|j: int| i < j < s.len() ==> s[j].name@ != key,
    ensures
        repo_map(s).contains_key(key),
        repo_map(s)[key] == s[i]@,
    decreases s.len(),
{
    if i < s.len() - 1 {
        assert(forall|j: int| 0 <= j < s.len() - 1 ==> s.drop_last()[j] == s[j]);
        lemma_repo_map_found(s.drop_last(), key, i);
    }
}

proof fn lemma_repo_map_update(s: Seq<CodebaseState>, i: int, x: CodebaseState)
    requires
        0 <= i < s.len(),
        forall|j: int| i < j < s.len() ==> s[j].name@ != s[i].name@,
        x.name@ == s[i].name@,
    ensures
        repo_map(s.update(i, x)) =~= repo_map(s).insert(x.name@, x@),
    decreases s.len(),
{
    let t = s.update(i, x);
    if i == s.len() - 1 {
        assert(t.drop_last() =~= s.drop_last());
        assert(t.last() == x);
    } else {
        assert(t.drop_last() =~= s.drop_last().update(i, x));
        assert(t.last() == s.last());
        assert(forall|j: int| 0 <= j < s.len() - 1 ==> s.drop_last()[j] == s[j]);
        lemma_repo_map_update(s.drop_last(), i, x);
    }
}

proof fn lemma_files_map_absent(s: Seq<FileEntry>, key: Seq<char>)
    requires
        forall|j: int| 0 <= j < s.len() ==> s[j].name@ != key,
    ensures
        !files_map(s).contains_key(key),
    decreases s.len(),
{
    if s.len() > 0 {
        assert(forall|j: int| 0 <= j < s.len() - 1 ==> s.drop_last()[j] == s[j]);
        lemma_files_map_absent(s.drop_last(), key);
    }
}

proof fn lemma_files_map_found(s: Seq<FileEntry>, key: Seq<char>, i: int)
    requires
        0 <= i < s.len(),
        s[i].name@ == key,
        forall|j: int| i < j < s.len() ==> s[j].name@ != key,
    ensures
        files_map(s).contains_key(key),
        files_map(s)[key] == s[i].data@,
    decreases s.len(),
{
    if i < s.len() - 1 {
        assert(forall|j: int| 0 <= j < s.len() - 1 ==> s.drop_last()[j] == s[j]);
        lemma_files_map_found(s.drop_last(), key, i);
    }
}

proof fn lemma_names_set_push(s: Seq<String>, x: String)
    ensures
        names_set(s.push(x)) =~= names_set(s).insert(x@),
{
    let t = s.push(x);
    assert forall|a: Seq<char>| names_set(t).contains(a) implies names_set(s).insert(
        x@,
    ).contains(a) by {
        let i = choose|i: int| 0 <= i < t.len() && t[i]@ == a;
        if i < s.len() {
            assert(s[i]@ == a);
        } else {
            assert(a == x@);
        }
    }
    assert forall|a: Seq<char>| names_set(s).insert(x@).contains(a) implies names_set(
        t,
    ).contains(a) by {
        if a == x@ {
            assert(t[s.len() as int]@ == a);
        } else {
            let i = choose|i: int| 0 <= i < s.len() && s[i]@ == a;
            assert(t[i]@ == a);
        }
    }
}

fn find_codebase(v: &Vec<CodebaseState>, key: &String) -> (r: Option<usize>)
    ensures
        match r {
            Some(i) => i < v@.len() && v@[i as int].name@ == key@ && (forall|j: int|
                i < j < v@.len() ==> v@[j].name@ != key@),
            None => forall|j: int| 0 <= j < v@.len() ==> v@[j].name@ != key@,
        },
{
    let mut i: usize = v.len();
    while i > 0
        invariant
            i <= v@.len(),
            forall|j: int| i <= j < v@.len() ==> v@[j].name@ != key@,
        decreases i,
    {
        i = i - 1;
        if v[i].name == *key {
            return Some(i);
        }
    }
    None
}

fn find_file(v: &Vec<FileEntry>, key: &String) -> (r: Option<usize>)
    ensures
        match r {
            Some(i) => i < v@.len() && v@[i as int].name@ == key@ && (forall|j: int|
                i < j < v@.len() ==> v@[j].name@ != key@),
            None => forall|j: int| 0 <= j < v@.len() ==> v@[j].name@ != key@,
        },
{
    let mut i: usize = v.len();
    while i > 0
        invariant
            i <= v@.len(),
            forall|j: int| i <= j < v@.len() ==> v@[j].name@ != key@,
        decreases i,
    {
        i = i - 1;
        if v[i].name == *key {
            return Some(i);
        }
    }
    None
}

fn clone_bytes(v: &Vec<u8>) -> (r: Vec<u8>)
    ensures
        r@ == v@,
{
    let mut r: Vec<u8> = Vec::new();
    let mut i: usize = 0;
    while i < v.len()
        invariant
            i <= v@.len(),
            r@ == v@.subrange(0, i as int),
        decreases v@.len() - i,
    {
        r.push(v[i]);
        i += 1;
        proof {
            assert(r@ =~= v@.subrange(0, i as int));
        }
    }
    proof {
        assert(v@.subrange(0, v@.len() as int) =~= v@);
    }
    r
}

fn blank_codebase() -> CodebaseState {
    CodebaseState {
        name: String::new(),
        version: 0,
        main: String::new(),
        files: Vec::new(),
        edit_files: Vec::new(),
    }
}

impl RepoModel {
    /// An empty repository with no active program.
    pub fn new() -> (r: Self)
        ensures
            r@.codebases =~= Map::<Seq<char>, CodebaseView>::empty(),
            r@.active is None,
    {
        RepoModel { codebases: Vec::new(), active: None }
    }

    /// Creates the named codebase; an existing one is left untouched.
    pub fn create(&mut self, name: &str)
        ensures
            final(self)@ == create_effect(old(self)@, canon(name@)),
    {
        let target = normalize_name(name);
        let ghost s = self.codebases@;
        match find_codebase(&self.codebases, &target) {
            Some(i) => {
                proof {
                    lemma_repo_map_found(s, target@, i as int);
                }
            },
            None => {
                proof {
                    lemma_repo_map_absent(s, target@);
                }
                let mut files: Vec<FileEntry> = Vec::new();
                files.push(FileEntry { name: String::from_str("main.js"), data: Vec::new() });
                let cb = CodebaseState {
                    name: target,
                    version: 0,
                    main: String::from_str("main.js"),
                    files,
                    edit_files: Vec::new(),
                };
                let ghost cbv = cb@;
                proof {
                    assert(cb.files@.drop_last() =~= Seq::<FileEntry>::empty());
                    assert(cb.files@.len() == 1);
                    assert(cb.files@.last().name@ == "main.js"@);
                    assert(cb.files@.last().data@ == Seq::<u8>::empty());
                    assert(files_map(Seq::<FileEntry>::empty()) == Map::<Seq<char>, Seq<u8>>::empty());
                    assert(files_map(cb.files@) == files_map(cb.files@.drop_last()).insert(
                        cb.files@.last().name@, cb.files@.last().data@));
                    assert(files_map(cb.files@) =~= fresh_codebase().files);
                    assert(names_set(cb.edit_files@) =~= Set::<Seq<char>>::empty());
                    assert(cbv =~= fresh_codebase());
                }
                self.codebases.push(cb);
                proof {
                    assert(self.codebases@.drop_last() =~= s);
                    assert(repo_map(self.codebases@) =~= repo_map(s).insert(target@, cbv));
                }
            },
        }
    }

    /// Stores `data` as `file` in the named codebase and stages the file,
    /// or reports which codebase was not found.
    pub fn write_file(&mut self, name: &str, file: &str, data: Vec<u8>) -> (r: Result<
        (),
        ApiError,
    >)
        ensures
            r is Ok <==> old(self)@.codebases.contains_key(canon(name@)),
            r is Ok ==> final(self)@ == write_effect(
                old(self)@,
                canon(name@),
                canon(file@),
                data@,
            ),
            r is Err ==> final(self)@ == old(self)@ && (r->Err_0 matches ApiError::NotFound {
                kind,
                name: n,
            } && kind is Codebase && n@ == name@),
    {
        let target = normalize_name(name);
        let ghost s = self.codebases@;
        let i = match find_codebase(&self.codebases, &target) {
            Some(i) => i,
            None => {
                proof {
                    lemma_repo_map_absent(s, target@);
                }
                return Err(
                    ApiError::NotFound { kind: NotFoundKind::Codebase, name: name.to_owned() },
                );
            },
        };
        proof {
            lemma_repo_map_found(s, target@, i as int);
        }
        let fname = normalize_name(file);
        let ghost data_v = data@;
        let mut tmp = blank_codebase();
        self.codebases.set_and_swap(i, &mut tmp);
        let ghost oldcb = tmp;
        let entry = FileEntry { name: fname.clone(), data };
        let ghost fs = tmp.files@;
        tmp.files.push(entry);
        proof {
            assert(tmp.files@.drop_last() =~= fs);
            assert(files_map(tmp.files@) =~= files_map(fs).insert(canon(file@), data_v));
        }
        let ghost es = tmp.edit_files@;
        tmp.edit_files.push(fname);
        proof {
            lemma_names_set_push(es, tmp.edit_files@.last());
            assert(tmp.edit_files@.drop_last() =~= es);
            assert(names_set(tmp.edit_files@) =~= names_set(es).insert(canon(file@)));
        }
        let ghost cbv = tmp@;
        self.codebases.set(i, tmp);
        proof {
            assert(self.codebases@ =~= s.update(i as int, self.codebases@[i as int]));
            lemma_repo_map_update(s, i as int, self.codebases@[i as int]);
            assert(cbv =~= write_effect(old(self)@, canon(name@), canon(file@), data_v).codebases[
                canon(name@)
            ]);
            assert(final(self)@ =~= write_effect(old(self)@, canon(name@), canon(file@), data_v));
        }
        Ok(())
    }

    /// Commits the staged edits of the named codebase: version up by one,
    /// staging emptied; or reports which codebase was not found.
    pub fn publish(&mut self, name: &str) -> (r: Result<(), ApiError>)
        requires
            old(self)@.codebases.contains_key(canon(name@)) ==> old(self)@.codebases[canon(
                name@,
            )].version < u64::MAX,
        ensures
            r is Ok <==> old(self)@.codebases.contains_key(canon(name@)),
            r is Ok ==> final(self)@ == publish_effect(old(self)@, canon(name@)),
            r is Err ==> final(self)@ == old(self)@ && (r->Err_0 matches ApiError::NotFound {
                kind,
                name: n,
            } && kind is Codebase && n@ == name@),
    {
        let target = normalize_name(name);
        let ghost s = self.codebases@;
        let i = match find_codebase(&self.codebases, &target) {
            Some(i) => i,
            None => {
                proof {
                    lemma_repo_map_absent(s, target@);
                }
                return Err(
                    ApiError::NotFound { kind: NotFoundKind::Codebase, name: name.to_owned() },
                );
            },
        };
        proof {
            lemma_repo_map_found(s, target@, i as int);
        }
        let mut tmp = blank_codebase();
        self.codebases.set_and_swap(i, &mut tmp);
        tmp.version = tmp.version + 1;
        tmp.edit_files = Vec::new();
        proof {
            assert(names_set(tmp.edit_files@) =~= Set::<Seq<char>>::empty());
        }
        let ghost cbv = tmp@;
        self.codebases.set(i, tmp);
        proof {
            assert(self.codebases@ =~= s.update(i as int, self.codebases@[i as int]));
            lemma_repo_map_update(s, i as int, self.codebases@[i as int]);
            assert(cbv =~= publish_effect(old(self)@, canon(name@)).codebases[canon(name@)]);
            assert(final(self)@ =~= publish_effect(old(self)@, canon(name@)));
        }
        Ok(())
    }

    /// The stored bytes of `file` in the named codebase. Fails with
    /// `NotFound(Codebase)` when the codebase is absent and `NotFound(File)`
    /// when the codebase exists but the file is not among its `files`.
    pub fn read_file(&self, name: &str, file: &str) -> (r: Result<Vec<u8>, ApiError>)
        ensures
            r is Ok <==> read_result(self@, canon(name@), canon(file@)) is Some,
            r is Ok ==> r->Ok_0@ == read_result(self@, canon(name@), canon(file@))->Some_0,
            !self@.codebases.contains_key(canon(name@)) ==> (r->Err_0 matches ApiError::NotFound {
                kind,
                name: n,
            } && kind is Codebase && n@ == name@),
            self@.codebases.contains_key(canon(name@)) && !self@.codebases[canon(
                name@,
            )].files.contains_key(canon(file@)) ==> (r->Err_0 matches ApiError::NotFound {
                kind,
                name: n,
            } && kind is File && n@ == file@),
    {
        let target = normalize_name(name);
        let ghost s = self.codebases@;
        let i = match find_codebase(&self.codebases, &target) {
            Some(i) => i,
            None => {
                proof {
                    lemma_repo_map_absent(s, target@);
                }
                return Err(
                    ApiError::NotFound { kind: NotFoundKind::Codebase, name: name.to_owned() },
                );
            },
        };
        proof {
            lemma_repo_map_found(s, target@, i as int);
        }
        let fname = normalize_name(file);
        let cb = &self.codebases[i];
        let j = match find_file(&cb.files, &fname) {
            Some(j) => j,
            None => {
                proof {
                    lemma_files_map_absent(cb.files@, fname@);
                }
                return Err(ApiError::NotFound { kind: NotFoundKind::File, name: file.to_owned() });
            },
        };
        proof {
            lemma_files_map_found(cb.files@, fname@, j as int);
        }
        Ok(clone_bytes(&cb.files[j].data))
    }

    /// Makes the named codebase the running program, replacing any previous
    /// one; or reports which codebase was not found.
    pub fn activate(&mut self, name: &str) -> (r: Result<(), ApiError>)
        ensures
            r is Ok <==> old(self)@.codebases.contains_key(canon(name@)),
            r is Ok ==> final(self)@ == activate_effect(old(self)@, canon(name@)),
            r is Err ==> final(self)@ == old(self)@ && (r->Err_0 matches ApiError::NotFound {
                kind,
                name: n,
            } && kind is Codebase && n@ == name@),
    {
        let target = normalize_name(name);
        let ghost s = self.codebases@;
        match find_codebase(&self.codebases, &target) {
            Some(i) => {
                proof {
                    lemma_repo_map_found(s, target@, i as int);
                }
                self.active = Some(target);
                Ok(())
            },
            None => {
                proof {
                    lemma_repo_map_absent(s, target@);
                }
                Err(ApiError::NotFound { kind: NotFoundKind::Codebase, name: name.to_owned() })
            },
        }
    }

    /// Clears the running program, whatever it was.
    pub fn deactivate(&mut self)
        ensures
            final(self)@ == deactivate_effect(old(self)@),
    {
        self.active = None;
    }

    /// The name of the running program, if any.
    pub fn current_program(&self) -> (r: Option<String>)
        ensures
            match r {
                Some(s) => self@.active is Some && s@ == self@.active->0,
                None => self@.active is None,
            },
    {
        match &self.active {
            Some(s) => Some(s.clone()),
            None => None,
        }
    }

    /// The committed version of the named codebase, if it exists.
    pub fn version_of(&self, name: &str) -> (r: Option<u64>)
        ensures
            match r {
                Some(v) => self@.codebases.contains_key(canon(name@)) && v as nat
                    == self@.codebases[canon(name@)].version,
                None => !self@.codebases.contains_key(canon(name@)),
            },
    {
        let target = normalize_name(name);
        let ghost s = self.codebases@;
        match find_codebase(&self.codebases, &target) {
            Some(i) => {
                proof {
                    lemma_repo_map_found(s, target@, i as int);
                }
                Some(self.codebases[i].version)
            },
            None => {
                proof {
                    lemma_repo_map_absent(s, target@);
                }
                None
            },
        }
    }

    /// Whether the named codebase has staged, unpublished edits.
    pub fn has_edits(&self, name: &str) -> (r: Option<bool>)
        ensures
            match r {
                Some(b) => self@.codebases.contains_key(canon(name@)) && (b <==> self@.codebases[
                    canon(name@)
                ].edit_files != Set::<Seq<char>>::empty()),
                None => !self@.codebases.contains_key(canon(name@)),
            },
    {
        let target = normalize_name(name);
        let ghost s = self.codebases@;
        match find_codebase(&self.codebases, &target) {
            Some(i) => {
                proof {
                    lemma_repo_map_found(s, target@, i as int);
                }
                let cb = &self.codebases[i];
                let b = !cb.edit_files.is_empty();
                proof {
                    if cb.edit_files@.len() > 0 {
                        assert(names_set(cb.edit_files@).contains(cb.edit_files@[0]@));
                        assert(!Set::<Seq<char>>::empty().contains(cb.edit_files@[0]@));
                    } else {
                        assert(names_set(cb.edit_files@) =~= Set::<Seq<char>>::empty());
                    }
                }
                Some(b)
            },
            None => {
                proof {
                    lemma_repo_map_absent(s, target@);
                }
                None
            },
        }
    }
}

} // verus!
