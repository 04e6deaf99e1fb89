//! Facts: everything the evaluator may know about a repository.
//!
//! A [`FactSet`] keeps its files, headers and metadata sorted by path or
//! key with nothing occurring twice (its well-formedness, [`FactSet::wf`]);
//! the `insert_*` methods keep it so. Walking the tree and reading files is
//! the caller's business; [`FactSet::record_file`],
//! [`FactSet::record_cargo_manifest`] and [`git_facts_from_head`] turn what
//! was read into facts.
use vstd::prelude::*;
use crate::header::{extract_spdx_raw_from_content, is_auditable, raw_header, auditable_extensions};
use crate::order::{lemma_lt_asymmetric, lemma_lt_irreflexive, lemma_lt_total, lemma_lt_transitive, str_less, str_lt, strictly_sorted};
use crate::text::{has_prefix, str_eq, str_starts_with, string_from, string_from_range, chars_of, trim, trim_chars};

verus! {

/// Errors produced while collecting facts.
#[derive(Debug, Clone)]
pub enum FactError {
    MissingRoot(String),
    Io(String),
}

impl FactError {
    /// The human-readable message of the error.
    pub fn to_string(&self) -> (s: String)
        ensures
            s@ == (match self {
                FactError::MissingRoot(p) => "path does not exist: "@ + p@,
                FactError::Io(m) => "io error while collecting facts: "@ + m@,
            }),
    {
        match self {
            FactError::MissingRoot(p) => {
                let mut s = String::from_str("path does not exist: ");
                s.append(p.as_str());
                s
            },
            FactError::Io(m) => {
                let mut s = String::from_str("io error while collecting facts: ");
                s.append(m.as_str());
                s
            },
        }
    }
}

/// Git facts read from `.git/HEAD`.
#[derive(Debug, Clone, Default, PartialEq, Eq)]
pub struct GitFacts {
    pub is_repo: bool,
    pub head_ref: Option<String>,
}

/// The view of an optional string.
pub open spec fn opt_text(o: Option<String>) -> Option<Seq<char>> {
    match o {
        Some(s) => Some(s@),
        None => None,
    }
}

impl GitFacts {
    /// Equality of two git states.
    pub fn same(&self, other: &GitFacts) -> (r: bool)
        ensures
            r == (self.is_repo == other.is_repo && opt_text(self.head_ref) == opt_text(
                other.head_ref,
            )),
    {
        self.is_repo == other.is_repo && opt_str_eq(&self.head_ref, &other.head_ref)
    }

    /// A copy with the same contents.
    pub fn duplicate(&self) -> (r: GitFacts)
        ensures
            r.is_repo == self.is_repo,
            opt_text(r.head_ref) == opt_text(self.head_ref),
    {
        GitFacts { is_repo: self.is_repo, head_ref: opt_clone(&self.head_ref) }
    }
}

/// Equality of two optional strings.
pub fn opt_str_eq(a: &Option<String>, b: &Option<String>) -> (r: bool)
    ensures
        r == (opt_text(*a) == opt_text(*b)),
{
    match (a, b) {
        (Some(x), Some(y)) => str_eq(x.as_str(), y.as_str()),
        (None, None) => true,
        _ => false,
    }
}

/// A copy of an optional string.
pub fn opt_clone(a: &Option<String>) -> (r: Option<String>)
    ensures
        opt_text(r) == opt_text(*a),
{
    match a {
        Some(x) => Some(x.clone()),
        None => None,
    }
}

/// The git facts of a `.git/HEAD` text (`None` when it could not be read):
/// a `ref: ` line names the ref, anything else is taken as a detached head;
/// an empty head names nothing.
pub open spec fn git_facts_spec(head: Option<Seq<char>>) -> (bool, Option<Seq<char>>) {
    match head {
        None => (false, None),
        Some(content) => {
            let h = trim(content);
            let r = if has_prefix(h, "ref: "@) {
                h.subrange(5, h.len() as int)
            } else {
                h
            };
            (true, if r.len() == 0 { None } else { Some(r) })
        },
    }
}

/// Git facts from the content of `.git/HEAD` (`None` when there is none).
pub fn git_facts_from_head(content: Option<&str>) -> (g: GitFacts)
    ensures
        (g.is_repo, opt_text(g.head_ref)) == git_facts_spec(match content {
            Some(c) => Some(c@),
            None => None,
        }),
{
    match content {
        None => GitFacts { is_repo: false, head_ref: None },
        Some(c) => {
            let chars = chars_of(c);
            let h = trim_chars(chars.as_slice());
            let prefix = chars_of("ref: ");
            proof {
                reveal_strlit("ref: ");
            }
            let r = if crate::text::chars_start_with(h.as_slice(), prefix.as_slice()) {
                string_from_range(h.as_slice(), 5, h.len())
            } else {
                string_from(h.as_slice())
            };
            if r.as_str().unicode_len() == 0 {
                GitFacts { is_repo: true, head_ref: None }
            } else {
                GitFacts { is_repo: true, head_ref: Some(r) }
            }
        },
    }
}

/// Directory and file names skipped when walking a repository.
pub open spec fn skipped_name(name: Seq<char>) -> bool {
    has_prefix(name, "."@) || name == "target"@ || name == "node_modules"@ || name == "vendor"@
        || name == "_build"@ || name == "deps"@
}

/// Is this directory or file name skipped during the walk?
pub fn skip_entry(name: &str) -> (r: bool)
    ensures
        r == skipped_name(name@),
{
    str_starts_with(name, ".") || str_eq(name, "target") || str_eq(name, "node_modules") || str_eq(
        name,
        "vendor",
    ) || str_eq(name, "_build") || str_eq(name, "deps")
}

/// Name for the string that the TOML parser finds under `[table] key` in a
/// TOML text (`None` when the text does not parse, or has no string there).
pub uninterp spec fn toml_table_string(content: Seq<char>, table: Seq<char>, key: Seq<char>) -> Option<
    Seq<char>,
>;

/// `toml`'s parser, then a lookup of `key` in `table`: the string found
/// there. The contract names the result over all three arguments; it claims
/// nothing of the TOML grammar.
#[verifier::external_body]
fn toml_string_in_table(content: &str, table: &str, key: &str) -> (r: Option<String>)
    ensures
        opt_text(r) == toml_table_string(content@, table@, key@),
{
    let value: toml::Value = content.parse().ok()?;
    value.get(table)?.get(key)?.as_str().map(|s| s.to_string())
}

/// A deterministic snapshot of repository state.
#[derive(Debug, Clone, PartialEq, Eq)]
pub struct FactSet {
    /// Repository root as given by the caller.
    pub root: String,
    /// Regular files, relative to the root, `/`-separated.
    pub files: Vec<String>,
    /// Raw SPDX header text per auditable file (`None` = no header).
    pub spdx_headers: Vec<(String, Option<String>)>,
    /// Governance metadata.
    pub metadata: Vec<(String, String)>,
    pub git: GitFacts,
}

/// Texts of a vector of strings.
pub open spec fn texts(v: Seq<String>) -> Seq<Seq<char>> {
    v.map_values(|s: String| s@)
}

/// Keys of a vector of pairs.
pub open spec fn keys_of<T>(v: Seq<(String, T)>) -> Seq<Seq<char>> {
    v.map_values(|p: (String, T)| p.0@)
}

/// The header entry for `path`: the value stored with the first entry of
/// that key.
pub open spec fn header_lookup(v: Seq<(String, Option<String>)>, path: Seq<char>) -> Option<
    Option<Seq<char>>,
>
    decreases v.len(),
{
    if v.len() == 0 {
        None
    } else if v[0].0@ == path {
        Some(opt_text(v[0].1))
    } else {
        header_lookup(v.drop_first(), path)
    }
}

/// The metadata value for `key` (first entry of that key).
pub open spec fn metadata_lookup(v: Seq<(String, String)>, key: Seq<char>) -> Option<Seq<char>>
    decreases v.len(),
{
    if v.len() == 0 {
        None
    } else if v[0].0@ == key {
        Some(v[0].1@)
    } else {
        metadata_lookup(v.drop_first(), key)
    }
}

impl FactSet {
    /// Files, header paths and metadata keys are strictly increasing.
    pub open spec fn wf(&self) -> bool {
        &&& strictly_sorted(texts(self.files@))
        &&& strictly_sorted(keys_of(self.spdx_headers@))
        &&& strictly_sorted(keys_of(self.metadata@))
    }

    /// The set of files.
    pub open spec fn file_set(&self) -> Set<Seq<char>> {
        texts(self.files@).to_set()
    }

    /// An empty snapshot of `root`.
    pub fn new(root: String) -> (f: FactSet)
        ensures
            f.wf(),
            f.root@ == root@,
            f.files@.len() == 0,
            f.spdx_headers@.len() == 0,
            f.metadata@.len() == 0,
            !f.git.is_repo,
            f.git.head_ref is None,
    {
        FactSet {
            root,
            files: Vec::new(),
            spdx_headers: Vec::new(),
            metadata: Vec::new(),
            git: GitFacts { is_repo: false, head_ref: None },
        }
    }

    /// Is `path` among the files?
    pub fn has_file(&self, path: &str) -> (r: bool)
        ensures
            r == texts(self.files@).contains(path@),
    {
        let mut i: usize = 0;
        while i < self.files.len()
            invariant
                i <= self.files@.len(),
                forall|k: int| 0 <= k < i ==> texts(self.files@)[k] != path@,
            decreases self.files@.len() - i,
        {
            if str_eq(self.files[i].as_str(), path) {
                assert(texts(self.files@)[i as int] == path@);
                return true;
            }
            i = i + 1;
        }
        false
    }

    /// The header entry of `path`: `None` when the file has no entry,
    /// `Some(None)` when it was audited and has no header.
    pub fn header_of(&self, path: &str) -> (r: Option<&Option<String>>)
        ensures
            match r {
                None => header_lookup(self.spdx_headers@, path@) is None,
                Some(h) => header_lookup(self.spdx_headers@, path@) == Some(opt_text(*h)),
            },
    {
        let mut i: usize = 0;
        assert(self.spdx_headers@.subrange(0, self.spdx_headers@.len() as int) =~= self.spdx_headers@);
        while i < self.spdx_headers.len()
            invariant
                i <= self.spdx_headers@.len(),
                header_lookup(self.spdx_headers@, path@) == header_lookup(
                    self.spdx_headers@.subrange(i as int, self.spdx_headers@.len() as int),
                    path@,
                ),
            decreases self.spdx_headers@.len() - i,
        {
            let ghost rest = self.spdx_headers@.subrange(i as int, self.spdx_headers@.len() as int);
            assert(rest.drop_first() =~= self.spdx_headers@.subrange(
                i + 1,
                self.spdx_headers@.len() as int,
            ));
            if str_eq(self.spdx_headers[i].0.as_str(), path) {
                return Some(&self.spdx_headers[i].1);
            }
            i = i + 1;
        }
        None
    }

    /// The metadata value of `key`.
    pub fn metadata_value(&self, key: &str) -> (r: Option<&String>)
        ensures
            match r {
                None => metadata_lookup(self.metadata@, key@) is None,
                Some(v) => metadata_lookup(self.metadata@, key@) == Some(v@),
            },
    {
        let mut i: usize = 0;
        assert(self.metadata@.subrange(0, self.metadata@.len() as int) =~= self.metadata@);
        while i < self.metadata.len()
            invariant
                i <= self.metadata@.len(),
                metadata_lookup(self.metadata@, key@) == metadata_lookup(
                    self.metadata@.subrange(i as int, self.metadata@.len() as int),
                    key@,
                ),
            decreases self.metadata@.len() - i,
        {
            let ghost rest = self.metadata@.subrange(i as int, self.metadata@.len() as int);
            assert(rest.drop_first() =~= self.metadata@.subrange(
                i + 1,
                self.metadata@.len() as int,
            ));
            if str_eq(self.metadata[i].0.as_str(), key) {
                return Some(&self.metadata[i].1);
            }
            i = i + 1;
        }
        None
    }

    /// Add a file (nothing changes when it is already present).
    pub fn insert_file(&mut self, path: String)
        requires
            old(self).wf(),
        ensures
            final(self).wf(),
            final(self).file_set() == old(self).file_set().insert(path@),
            final(self).root == old(self).root,
            final(self).spdx_headers == old(self).spdx_headers,
            final(self).metadata == old(self).metadata,
            final(self).git == old(self).git,
    {
        let ghost old_t = texts(self.files@);
        let mut i: usize = 0;
        while i < self.files.len() && str_less(self.files[i].as_str(), path.as_str())
            invariant
                i <= self.files@.len(),
                texts(self.files@) == old_t,
                forall|k: int| 0 <= k < i ==> str_lt(#[trigger] old_t[k], path@),
            decreases self.files@.len() - i,
        {
            i = i + 1;
        }
        if i < self.files.len() && str_eq(self.files[i].as_str(), path.as_str()) {
            assert(old_t[i as int] == path@);
            assert(old_t.to_set().insert(path@) =~= old_t.to_set());
            return;
        }
        let ghost p = path@;
        proof {
            if i < old_t.len() {
                lemma_lt_total(old_t[i as int], p);
            }
        }
        self.files.insert(i, path);
        let ghost new_t = texts(self.files@);
        assert(new_t =~= old_t.insert(i as int, p));
        assert forall|a: int, b: int| 0 <= a < b < new_t.len() implies str_lt(
            #[trigger] new_t[a],
            #[trigger] new_t[b],
        ) by {
            if a < i && b == i {
            } else if a < i && b > i {
                assert(new_t[b] == old_t[b - 1]);
                assert(str_lt(old_t[a], old_t[b - 1]));
            } else if a == i && b > i {
                assert(new_t[b] == old_t[b - 1]);
                if b - 1 > i {
                    assert(str_lt(old_t[i as int], old_t[b - 1]));
                    lemma_lt_transitive(p, old_t[i as int], old_t[b - 1]);
                }
            } else if a > i {
                assert(new_t[a] == old_t[a - 1]);
                assert(new_t[b] == old_t[b - 1]);
            }
        }
        assert(new_t.to_set() =~= old_t.to_set().insert(p)) by {
            assert forall|x: Seq<char>| new_t.to_set().contains(x) <==> old_t.to_set().insert(
                p,
            ).contains(x) by {
                if new_t.to_set().contains(x) {
                    let k = choose|k: int| 0 <= k < new_t.len() && new_t[k] == x;
                    if k < i {
                        assert(old_t[k] == x);
                    } else if k > i {
                        assert(old_t[k - 1] == x);
                    }
                }
                if old_t.to_set().contains(x) {
                    let k = choose|k: int| 0 <= k < old_t.len() && old_t[k] == x;
                    if k < i {
                        assert(new_t[k] == x);
                    } else {
                        assert(new_t[k + 1] == x);
                    }
                }
                if x == p {
                    assert(new_t[i as int] == p);
                }
            }
        }
    }

    /// Record the header of a file, replacing an earlier entry of the same
    /// path.
    pub fn insert_header(&mut self, path: String, header: Option<String>)
        requires
            old(self).wf(),
        ensures
            final(self).wf(),
            header_lookup(final(self).spdx_headers@, path@) == Some(opt_text(header)),
            forall|q: Seq<char>|
                q != path@ ==> header_lookup(final(self).spdx_headers@, q) == header_lookup(
                    old(self).spdx_headers@,
                    q,
                ),
            keys_of(final(self).spdx_headers@).to_set() == keys_of(
                old(self).spdx_headers@,
            ).to_set().insert(path@),
            final(self).root == old(self).root,
            final(self).files == old(self).files,
            final(self).metadata == old(self).metadata,
            final(self).git == old(self).git,
    {
        let ghost old_v = self.spdx_headers@;
        let ghost old_k = keys_of(old_v);
        let mut i: usize = 0;
        while i < self.spdx_headers.len() && str_less(
            self.spdx_headers[i].0.as_str(),
            path.as_str(),
        )
            invariant
                i <= self.spdx_headers@.len(),
                self.spdx_headers@ == old_v,
                old_k == keys_of(old_v),
                forall|k: int| 0 <= k < i ==> str_lt(#[trigger] old_k[k], path@),
            decreases self.spdx_headers@.len() - i,
        {
            i = i + 1;
        }
        let ghost p = path@;
        proof {
            lemma_lookup_sorted_prefix(old_v, p, i as int);
        }
        if i < self.spdx_headers.len() && str_eq(self.spdx_headers[i].0.as_str(), path.as_str()) {
            let ghost h = opt_text(header);
            self.spdx_headers.set(i, (path, header));
            let ghost new_v = self.spdx_headers@;
            assert(keys_of(new_v) =~= old_k);
            assert(old_k[i as int] == p);
            assert(old_k.to_set().insert(p) =~= old_k.to_set());
            proof {
                lemma_lookup_replace(old_v, new_v, i as int, p);
            }
            return;
        }
        proof {
            if i < old_k.len() {
                lemma_lt_total(old_k[i as int], p);
            }
        }
        self.spdx_headers.insert(i, (path, header));
        let ghost new_v = self.spdx_headers@;
        let ghost new_k = keys_of(new_v);
        assert(new_k =~= old_k.insert(i as int, p));
        proof {
            lemma_sorted_insert(old_k, new_k, p, i as int);
            lemma_lookup_insert(old_v, new_v, i as int, p);
        }
    }

    /// Record a metadata value, replacing an earlier value of the same key.
    pub fn insert_metadata(&mut self, key: String, value: String)
        requires
            old(self).wf(),
        ensures
            final(self).wf(),
            metadata_lookup(final(self).metadata@, key@) == Some(value@),
            forall|q: Seq<char>|
                q != key@ ==> metadata_lookup(final(self).metadata@, q) == metadata_lookup(
                    old(self).metadata@,
                    q,
                ),
            final(self).root == old(self).root,
            final(self).files == old(self).files,
            final(self).spdx_headers == old(self).spdx_headers,
            final(self).git == old(self).git,
    {
        let ghost old_v = self.metadata@;
        let ghost old_k = keys_of(old_v);
        let mut i: usize = 0;
        while i < self.metadata.len() && str_less(self.metadata[i].0.as_str(), key.as_str())
            invariant
                i <= self.metadata@.len(),
                self.metadata@ == old_v,
                old_k == keys_of(old_v),
                forall|k: int| 0 <= k < i ==> str_lt(#[trigger] old_k[k], key@),
            decreases self.metadata@.len() - i,
        {
            i = i + 1;
        }
        let ghost p = key@;
        proof {
            lemma_meta_sorted_prefix(old_v, p, i as int);
        }
        if i < self.metadata.len() && str_eq(self.metadata[i].0.as_str(), key.as_str()) {
            self.metadata.set(i, (key, value));
            let ghost new_v = self.metadata@;
            assert(keys_of(new_v) =~= old_k);
            proof {
                lemma_meta_replace(old_v, new_v, i as int, p);
            }
            return;
        }
        proof {
            if i < old_k.len() {
                lemma_lt_total(old_k[i as int], p);
            }
        }
        self.metadata.insert(i, (key, value));
        let ghost new_v = self.metadata@;
        let ghost new_k = keys_of(new_v);
        assert(new_k =~= old_k.insert(i as int, p));
        proof {
            lemma_sorted_insert(old_k, new_k, p, i as int);
            lemma_meta_insert(old_v, new_v, i as int, p);
        }
    }

    /// Record one regular file found by the walk: auditable files (by
    /// extension) get a header entry from their content (`None` content =
    /// unreadable, recorded as no header).
    pub fn record_file(&mut self, rel: String, ext: &str, content: Option<&str>)
        requires
            old(self).wf(),
        ensures
            final(self).wf(),
            final(self).file_set() == old(self).file_set().insert(rel@),
            auditable_extensions().contains(ext@) ==> header_lookup(
                final(self).spdx_headers@,
                rel@,
            ) == Some(
                match content {
                    Some(c) => raw_header(c@),
                    None => None,
                },
            ),
            !auditable_extensions().contains(ext@) ==> final(self).spdx_headers
                == old(self).spdx_headers,
            forall|q: Seq<char>|
                q != rel@ ==> header_lookup(final(self).spdx_headers@, q) == header_lookup(
                    old(self).spdx_headers@,
                    q,
                ),
            final(self).metadata == old(self).metadata,
            final(self).root == old(self).root,
    {
        if is_auditable(ext) {
            let header = match content {
                Some(c) => extract_spdx_raw_from_content(c),
                None => None,
            };
            let key = rel.clone();
            self.insert_header(key, header);
        }
        self.insert_file(rel);
    }

    /// Record the `version` of a `Cargo.toml` text, when it has one.
    pub fn record_cargo_manifest(&mut self, cargo: Option<&str>)
        requires
            old(self).wf(),
        ensures
            final(self).wf(),
            match cargo {
                Some(c) => match toml_table_string(c@, "package"@, "version"@) {
                    Some(v) => metadata_lookup(final(self).metadata@, "version"@) == Some(v)
                        && forall|q: Seq<char>|
                        q != "version"@ ==> #[trigger] metadata_lookup(final(self).metadata@, q)
                            == metadata_lookup(old(self).metadata@, q),
                    None => final(self).metadata == old(self).metadata,
                },
                None => final(self).metadata == old(self).metadata,
            },
            final(self).files == old(self).files,
            final(self).spdx_headers == old(self).spdx_headers,
            final(self).root == old(self).root,
            final(self).git == old(self).git,
    {
        if let Some(c) = cargo {
            if let Some(v) = toml_string_in_table(c, "package", "version") {
                self.insert_metadata(String::from_str("version"), v);
            }
        }
    }
}

proof fn lemma_sorted_insert(old_k: Seq<Seq<char>>, new_k: Seq<Seq<char>>, p: Seq<char>, i: int)
    requires
        strictly_sorted(old_k),
        0 <= i <= old_k.len(),
        new_k == old_k.insert(i, p),
        forall|k: int| 0 <= k < i ==> str_lt(#[trigger] old_k[k], p),
        i < old_k.len() ==> str_lt(p, old_k[i]),
    ensures
        strictly_sorted(new_k),
{
    assert forall|a: int, b: int| 0 <= a < b < new_k.len() implies str_lt(
        #[trigger] new_k[a],
        #[trigger] new_k[b],
    ) by {
        if a < i && b == i {
        } else if a < i && b > i {
            assert(new_k[b] == old_k[b - 1]);
            assert(str_lt(old_k[a], old_k[b - 1]));
        } else if a == i && b > i {
            assert(new_k[b] == old_k[b - 1]);
            if b - 1 > i {
                assert(str_lt(old_k[i], old_k[b - 1]));
                lemma_lt_transitive(p, old_k[i], old_k[b - 1]);
            }
        } else if a > i {
            assert(new_k[a] == old_k[a - 1]);
            assert(new_k[b] == old_k[b - 1]);
        }
    }
}

proof fn lemma_lookup_sorted_prefix(v: Seq<(String, Option<String>)>, p: Seq<char>, i: int)
    requires
        0 <= i <= v.len(),
        forall|k: int| 0 <= k < i ==> str_lt(#[trigger] keys_of(v)[k], p),
    ensures
        header_lookup(v, p) == header_lookup(v.subrange(i, v.len() as int), p),
    decreases i,
{
    if i > 0 {
        assert(keys_of(v)[0] == v[0].0@);
        lemma_lt_asymmetric(v[0].0@, p);
        assert(keys_of(v.drop_first()) =~= keys_of(v).drop_first());
        assert forall|k: int| 0 <= k < i - 1 implies str_lt(
            #[trigger] keys_of(v.drop_first())[k],
            p,
        ) by {
            assert(keys_of(v)[k + 1] == keys_of(v.drop_first())[k]);
        }
        lemma_lookup_sorted_prefix(v.drop_first(), p, i - 1);
        assert(v.drop_first().subrange(i - 1, v.drop_first().len() as int) =~= v.subrange(
            i,
            v.len() as int,
        ));
    } else {
        assert(v.subrange(0, v.len() as int) =~= v);
    }
}

proof fn lemma_lookup_replace(
    old_v: Seq<(String, Option<String>)>,
    new_v: Seq<(String, Option<String>)>,
    i: int,
    p: Seq<char>,
)
    requires
        0 <= i < old_v.len(),
        new_v.len() == old_v.len(),
        old_v[i].0@ == p,
        new_v[i].0@ == p,
        forall|k: int| 0 <= k < old_v.len() && k != i ==> new_v[k] == old_v[k],
        header_lookup(old_v, p) == header_lookup(old_v.subrange(i, old_v.len() as int), p),
        forall|k: int| 0 <= k < i ==> str_lt(#[trigger] keys_of(old_v)[k], p),
    ensures
        header_lookup(new_v, p) == Some(opt_text(new_v[i].1)),
        forall|q: Seq<char>| q != p ==> header_lookup(new_v, q) == header_lookup(old_v, q),
    decreases i,
{
    if i > 0 {
        assert(new_v[0] == old_v[0]);
        assert(keys_of(old_v)[0] == old_v[0].0@);
        lemma_lt_asymmetric(old_v[0].0@, p);
        assert forall|k: int| 0 <= k < i - 1 implies str_lt(
            #[trigger] keys_of(old_v.drop_first())[k],
            p,
        ) by {
            assert(keys_of(old_v)[k + 1] == keys_of(old_v.drop_first())[k]);
        }
        assert(old_v.drop_first().subrange(i - 1, old_v.drop_first().len() as int) =~= old_v.subrange(
            i,
            old_v.len() as int,
        ));
        lemma_lookup_sorted_prefix(old_v.drop_first(), p, i - 1);
        lemma_lookup_replace(old_v.drop_first(), new_v.drop_first(), i - 1, p);
        assert forall|q: Seq<char>| q != p implies header_lookup(new_v, q) == header_lookup(
            old_v,
            q,
        ) by {
            assert(header_lookup(new_v.drop_first(), q) == header_lookup(old_v.drop_first(), q));
        }
    } else {
        assert(old_v.subrange(0, old_v.len() as int) =~= old_v);
        assert forall|q: Seq<char>| q != p implies header_lookup(new_v, q) == header_lookup(
            old_v,
            q,
        ) by {
            assert(new_v.drop_first() =~= old_v.drop_first());
        }
    }
}

proof fn lemma_lookup_insert(
    old_v: Seq<(String, Option<String>)>,
    new_v: Seq<(String, Option<String>)>,
    i: int,
    p: Seq<char>,
)
    requires
        0 <= i <= old_v.len(),
        new_v.len() == old_v.len() + 1,
        new_v[i].0@ == p,
        forall|k: int| 0 <= k < i ==> new_v[k] == old_v[k],
        forall|k: int| i < k < new_v.len() ==> new_v[k] == old_v[k - 1],
        forall|k: int| 0 <= k < i ==> str_lt(#[trigger] keys_of(old_v)[k], p),
    ensures
        header_lookup(new_v, p) == Some(opt_text(new_v[i].1)),
        forall|q: Seq<char>| q != p ==> header_lookup(new_v, q) == header_lookup(old_v, q),
        keys_of(new_v).to_set() == keys_of(old_v).to_set().insert(p),
    decreases i,
{
    if i > 0 {
        assert(new_v[0] == old_v[0]);
        assert(keys_of(old_v)[0] == old_v[0].0@);
        lemma_lt_asymmetric(old_v[0].0@, p);
        assert forall|k: int| 0 <= k < i - 1 implies str_lt(
            #[trigger] keys_of(old_v.drop_first())[k],
            p,
        ) by {
            assert(keys_of(old_v)[k + 1] == keys_of(old_v.drop_first())[k]);
        }
        lemma_lookup_insert(old_v.drop_first(), new_v.drop_first(), i - 1, p);
        assert forall|q: Seq<char>| q != p implies header_lookup(new_v, q) == header_lookup(
            old_v,
            q,
        ) by {
            assert(header_lookup(new_v.drop_first(), q) == header_lookup(old_v.drop_first(), q));
        }
        assert(keys_of(new_v) =~= keys_of(new_v.drop_first()).insert(0, new_v[0].0@));
        assert(keys_of(old_v) =~= keys_of(old_v.drop_first()).insert(0, old_v[0].0@));
        lemma_to_set_insert(keys_of(new_v.drop_first()), 0, new_v[0].0@);
        lemma_to_set_insert(keys_of(old_v.drop_first()), 0, old_v[0].0@);
        assert(keys_of(new_v).to_set() =~= keys_of(old_v).to_set().insert(p));
    } else {
        assert(new_v.drop_first() =~= old_v);
        assert forall|q: Seq<char>| q != p implies header_lookup(new_v, q) == header_lookup(
            old_v,
            q,
        ) by {
        }
        assert(keys_of(new_v) =~= keys_of(old_v).insert(0, p));
        lemma_to_set_insert(keys_of(old_v), 0, p);
    }
}

/// Inserting an element into a sequence inserts it into its set.
pub proof fn lemma_to_set_insert<A>(s: Seq<A>, i: int, x: A)
    requires
        0 <= i <= s.len(),
    ensures
        s.insert(i, x).to_set() == s.to_set().insert(x),
{
    let t = s.insert(i, x);
    assert forall|y: A| t.to_set().contains(y) <==> s.to_set().insert(x).contains(y) by {
        if t.to_set().contains(y) {
            let k = choose|k: int| 0 <= k < t.len() && t[k] == y;
            if k < i {
                assert(s[k] == y);
            } else if k > i {
                assert(s[k - 1] == y);
            }
        }
        if s.to_set().contains(y) {
            let k = choose|k: int| 0 <= k < s.len() && s[k] == y;
            if k < i {
                assert(t[k] == y);
            } else {
                assert(t[k + 1] == y);
            }
        }
        if y == x {
            assert(t[i] == x);
        }
    }
    assert(t.to_set() =~= s.to_set().insert(x));
}

proof fn lemma_meta_sorted_prefix(v: Seq<(String, String)>, p: Seq<char>, i: int)
    requires
        0 <= i <= v.len(),
        forall|k: int| 0 <= k < i ==> str_lt(#[trigger] keys_of(v)[k], p),
    ensures
        metadata_lookup(v, p) == metadata_lookup(v.subrange(i, v.len() as int), p),
    decreases i,
{
    if i > 0 {
        assert(keys_of(v)[0] == v[0].0@);
        lemma_lt_asymmetric(v[0].0@, p);
        assert forall|k: int| 0 <= k < i - 1 implies str_lt(
            #[trigger] keys_of(v.drop_first())[k],
            p,
        ) by {
            assert(keys_of(v)[k + 1] == keys_of(v.drop_first())[k]);
        }
        lemma_meta_sorted_prefix(v.drop_first(), p, i - 1);
        assert(v.drop_first().subrange(i - 1, v.drop_first().len() as int) =~= v.subrange(
            i,
            v.len() as int,
        ));
    } else {
        assert(v.subrange(0, v.len() as int) =~= v);
    }
}

proof fn lemma_meta_replace(old_v: Seq<(String, String)>, new_v: Seq<(String, String)>, i: int, p: Seq<char>)
    requires
        0 <= i < old_v.len(),
        new_v.len() == old_v.len(),
        old_v[i].0@ == p,
        new_v[i].0@ == p,
        forall|k: int| 0 <= k < old_v.len() && k != i ==> new_v[k] == old_v[k],
        forall|k: int| 0 <= k < i ==> str_lt(#[trigger] keys_of(old_v)[k], p),
    ensures
        metadata_lookup(new_v, p) == Some(new_v[i].1@),
        forall|q: Seq<char>| q != p ==> metadata_lookup(new_v, q) == metadata_lookup(old_v, q),
    decreases i,
{
    if i > 0 {
        assert(new_v[0] == old_v[0]);
        assert(keys_of(old_v)[0] == old_v[0].0@);
        lemma_lt_asymmetric(old_v[0].0@, p);
        assert forall|k: int| 0 <= k < i - 1 implies str_lt(
            #[trigger] keys_of(old_v.drop_first())[k],
            p,
        ) by {
            assert(keys_of(old_v)[k + 1] == keys_of(old_v.drop_first())[k]);
        }
        lemma_meta_replace(old_v.drop_first(), new_v.drop_first(), i - 1, p);
        assert forall|q: Seq<char>| q != p implies metadata_lookup(new_v, q) == metadata_lookup(
            old_v,
            q,
        ) by {
            assert(metadata_lookup(new_v.drop_first(), q) == metadata_lookup(old_v.drop_first(), q));
        }
    } else {
        assert forall|q: Seq<char>| q != p implies metadata_lookup(new_v, q) == metadata_lookup(
            old_v,
            q,
        ) by {
            assert(new_v.drop_first() =~= old_v.drop_first());
        }
    }
}

proof fn lemma_meta_insert(old_v: Seq<(String, String)>, new_v: Seq<(String, String)>, i: int, p: Seq<char>)
    requires
        0 <= i <= old_v.len(),
        new_v.len() == old_v.len() + 1,
        new_v[i].0@ == p,
        forall|k: int| 0 <= k < i ==> new_v[k] == old_v[k],
        forall|k: int| i < k < new_v.len() ==> new_v[k] == old_v[k - 1],
        forall|k: int| 0 <= k < i ==> str_lt(#[trigger] keys_of(old_v)[k], p),
    ensures
        metadata_lookup(new_v, p) == Some(new_v[i].1@),
        forall|q: Seq<char>| q != p ==> metadata_lookup(new_v, q) == metadata_lookup(old_v, q),
    decreases i,
{
    if i > 0 {
        assert(new_v[0] == old_v[0]);
        assert(keys_of(old_v)[0] == old_v[0].0@);
        lemma_lt_asymmetric(old_v[0].0@, p);
        assert forall|k: int| 0 <= k < i - 1 implies str_lt(
            #[trigger] keys_of(old_v.drop_first())[k],
            p,
        ) by {
            assert(keys_of(old_v)[k + 1] == keys_of(old_v.drop_first())[k]);
        }
        lemma_meta_insert(old_v.drop_first(), new_v.drop_first(), i - 1, p);
        assert forall|q: Seq<char>| q != p implies metadata_lookup(new_v, q) == metadata_lookup(
            old_v,
            q,
        ) by {
            assert(metadata_lookup(new_v.drop_first(), q) == metadata_lookup(old_v.drop_first(), q));
        }
    } else {
        assert(new_v.drop_first() =~= old_v);
        assert forall|q: Seq<char>| q != p implies metadata_lookup(new_v, q) == metadata_lookup(
            old_v,
            q,
        ) by {
        }
    }
}

} // verus!
