//! The archive facade: a SqPack database groups repositories, categories
//! and per-chunk index and data buffers, and resolves a logical path to
//! the bytes of the file it names.

use vstd::prelude::*;
use vstd::string::StrSliceExecFns;
use vstd::string::StringExecFns;
use vstd::string::StringSliceAdditionalSpecFns;

use crate::crc::spec_crc32;
use crate::crc::crc32_range;
use crate::error::{Error, ErrorV, res_matches};
use crate::file::{spec_read_dat_file, spec_read_failed};
use crate::index::{IndexEntry, IndexTable, spec_find_entry, spec_parse_index};
use crate::pathutil::{
    fold_bytes, fold_bytes_vec, fold_chars, fold_chars_vec, spec_find_char, spec_rfind_byte,
    find_char_vec, rfind_byte_vec, lemma_find_char_range,
};
use crate::strutil::{chars_vec, push_chars, push_chars_range, push_dec, spec_dec};

verus! {

/// A top-level repository directory within a SqPack database.
pub struct Repository {
    /// Name of the repository as it appears in SqPack file paths.
    pub name: String,
    /// Numeric ID of the repository as used in SqPack archive file names.
    pub id: u8,
    /// Path of the repository directory on disk.
    pub path: String,
}

/// Spec-level image of a [`Repository`].
pub struct RepositoryV {
    pub name: Seq<char>,
    pub id: u8,
    pub path: Seq<char>,
}

impl View for Repository {
    type V = RepositoryV;

    open spec fn view(&self) -> RepositoryV {
        RepositoryV { name: self.name@, id: self.id, path: self.path@ }
    }
}

/// A data category within a SqPack database.
pub struct Category {
    /// Name of the category as it appears in SqPack file paths.
    pub name: String,
    /// Numeric ID of the category as used in SqPack archive file names.
    pub id: u8,
}

/// Spec-level image of a [`Category`].
pub struct CategoryV {
    pub name: Seq<char>,
    pub id: u8,
}

impl View for Category {
    type V = CategoryV;

    open spec fn view(&self) -> CategoryV {
        CategoryV { name: self.name@, id: self.id }
    }
}

/// One chunk of a repository and category: its parsed index table and
/// the contents of its `.dat` files, by ordinal.
pub struct Chunk {
    pub repository_id: u8,
    pub category_id: u8,
    pub chunk_id: u8,
    pub index: IndexTable,
    pub dats: Vec<Vec<u8>>,
}

/// Spec-level image of a [`Chunk`].
pub struct ChunkV {
    pub repository_id: u8,
    pub category_id: u8,
    pub chunk_id: u8,
    pub entries: Seq<IndexEntry>,
    pub dats: Seq<Seq<u8>>,
}

impl View for Chunk {
    type V = ChunkV;

    open spec fn view(&self) -> ChunkV {
        ChunkV {
            repository_id: self.repository_id,
            category_id: self.category_id,
            chunk_id: self.chunk_id,
            entries: self.index@,
            dats: self.dats@.map_values(|d: Vec<u8>| d@),
        }
    }
}

/// A group of SqPack archive files that form a single database.
pub struct SqPack {
    default_repository: String,
    repositories: Vec<Repository>,
    categories: Vec<Category>,
    chunks: Vec<Chunk>,
}

/// Spec-level image of a [`SqPack`].
pub struct SqPackV {
    pub default_repository: Seq<char>,
    pub repositories: Seq<RepositoryV>,
    pub categories: Seq<CategoryV>,
    pub chunks: Seq<ChunkV>,
}

impl View for SqPack {
    type V = SqPackV;

    closed spec fn view(&self) -> SqPackV {
        SqPackV {
            default_repository: self.default_repository@,
            repositories: self.repositories@.map_values(|r: Repository| r@),
            categories: self.categories@.map_values(|c: Category| c@),
            chunks: self.chunks@.map_values(|c: Chunk| c@),
        }
    }
}

/// The first repository of that name.
pub open spec fn spec_repo_named(repos: Seq<RepositoryV>, name: Seq<char>) -> Option<RepositoryV>
    decreases repos.len(),
{
    if repos.len() == 0 {
        None
    } else if repos[0].name == name {
        Some(repos[0])
    } else {
        spec_repo_named(repos.drop_first(), name)
    }
}

/// The repository a path segment names: the segment itself when it is a
/// known repository name, else the default repository; the fallback is
/// applied once.
pub open spec fn spec_find_repo(
    repos: Seq<RepositoryV>,
    seg: Seq<char>,
    default: Seq<char>,
) -> Option<RepositoryV> {
    match spec_repo_named(repos, seg) {
        Some(r) => Some(r),
        None => spec_repo_named(repos, default),
    }
}

/// The first category of that name.
pub open spec fn spec_cat_named(cats: Seq<CategoryV>, name: Seq<char>) -> Option<CategoryV>
    decreases cats.len(),
{
    if cats.len() == 0 {
        None
    } else if cats[0].name == name {
        Some(cats[0])
    } else {
        spec_cat_named(cats.drop_first(), name)
    }
}

/// The first chunk of the repository and category whose index carries
/// `key`, together with the entry found.
pub open spec fn spec_chunk_lookup(chunks: Seq<ChunkV>, rid: u8, cid: u8, key: u64) -> Option<
    (ChunkV, IndexEntry),
>
    decreases chunks.len(),
{
    if chunks.len() == 0 {
        None
    } else {
        let c = chunks[0];
        if c.repository_id == rid && c.category_id == cid && spec_find_entry(c.entries, key)
            is Some {
            Some((c, spec_find_entry(c.entries, key)->0))
        } else {
            spec_chunk_lookup(chunks.drop_first(), rid, cid, key)
        }
    }
}

/// The index key of a folded path's bytes: the hash of the directory
/// part in the upper half, the hash of the file name in the lower.
pub open spec fn spec_index1_key(fb: Seq<u8>) -> u64 {
    let ls = spec_rfind_byte(fb, 47);
    let dir = if ls >= 0 {
        fb.subrange(0, ls)
    } else {
        Seq::<u8>::empty()
    };
    let file = if ls >= 0 {
        fb.subrange(ls + 1, fb.len() as int)
    } else {
        fb
    };
    (spec_crc32(dir) as int * 0x100000000 + spec_crc32(file) as int) as u64
}

/// What resolving a logical path against a database yields. Case is
/// folded first; the first segment names the category and the second the
/// repository, with the default repository standing in for an unknown
/// one; the folded path's hash is then looked up chunk by chunk, and the
/// file it maps to is read out of the chunk's data file.
pub open spec fn spec_sqpack_read(sq: SqPackV, pchars: Seq<char>, pbytes: Seq<u8>) -> Result<
    Seq<u8>,
    ErrorV,
> {
    let fc = fold_chars(pchars);
    let p1 = spec_find_char(fc, 0, '/');
    if p1 == fc.len() {
        Err(ErrorV::InvalidPath(pchars))
    } else {
        let p2 = spec_find_char(fc, p1 + 1, '/');
        match spec_find_repo(sq.repositories, fc.subrange(p1 + 1, p2), sq.default_repository) {
            None => Err(ErrorV::NotFound("Repository "@ + pchars.subrange(p1 + 1, p2))),
            Some(repo) => match spec_cat_named(sq.categories, fc.subrange(0, p1)) {
                None => Err(ErrorV::NotFound("Category "@ + pchars.subrange(0, p1))),
                Some(cat) => {
                    let key = spec_index1_key(fold_bytes(pbytes));
                    match spec_chunk_lookup(sq.chunks, repo.id, cat.id, key) {
                        None => Err(ErrorV::NotFound("Path "@ + pchars)),
                        Some((c, e)) => {
                            if e.data_file_id as int >= c.dats.len() {
                                Err(
                                    ErrorV::Resource(
                                        "Failed to read file. Data file "@ + spec_dec(
                                            e.data_file_id as int,
                                        ) + " is missing."@,
                                    ),
                                )
                            } else {
                                spec_read_dat_file(c.dats[e.data_file_id as int], e.offset as int)
                            }
                        },
                    }
                },
            },
        }
    }
}

/// Whether `v[from..to]` spells the same characters as `s`.
fn eq_char_range(v: &Vec<char>, from: usize, to: usize, s: &str) -> (r: bool)
    requires
        from <= to <= v@.len(),
    ensures
        r == (v@.subrange(from as int, to as int) == s@),
{
    let w = chars_vec(s);
    if to - from != w.len() {
        proof {
            assert(v@.subrange(from as int, to as int).len() != s@.len());
        }
        return false;
    }
    let mut i: usize = 0;
    while i < w.len()
        invariant
            from <= to <= v@.len(),
            to - from == w@.len(),
            i <= w@.len(),
            w@ == s@,
            forall|k: int| 0 <= k < i ==> v@[from + k] == w@[k],
        decreases w@.len() - i,
    {
        if v[from + i] != w[i] {
            proof {
                assert(v@.subrange(from as int, to as int)[i as int] != s@[i as int]);
            }
            return false;
        }
        i = i + 1;
    }
    proof {
        assert(v@.subrange(from as int, to as int) =~= s@);
    }
    true
}

impl SqPack {
    /// Build a representation of a SqPack database; the
    /// `default_repository` is expected to be the `name` of one of the
    /// repositories given. Chunk data is attached afterwards.
    pub fn new(
        default_repository: String,
        repositories: Vec<Repository>,
        categories: Vec<Category>,
    ) -> (r: SqPack)
        ensures
            r@.default_repository == default_repository@,
            r@.repositories == repositories@.map_values(|x: Repository| x@),
            r@.categories == categories@.map_values(|x: Category| x@),
            r@.chunks =~= Seq::<ChunkV>::empty(),
    {
        SqPack { default_repository, repositories, categories, chunks: Vec::new() }
    }

    /// Attach one chunk: its `.index` buffer, parsed and retained, and
    /// the contents of its `.dat` files by ordinal.
    pub fn add_chunk(
        &mut self,
        repository_id: u8,
        category_id: u8,
        chunk_id: u8,
        index: &Vec<u8>,
        dats: Vec<Vec<u8>>,
    ) -> (r: Result<(), Error>)
        ensures
            (match spec_parse_index(index@) {
                Ok(es) => r is Ok && final(self)@ == (SqPackV {
                    chunks: old(self)@.chunks.push(
                        ChunkV {
                            repository_id,
                            category_id,
                            chunk_id,
                            entries: es,
                            dats: dats@.map_values(|d: Vec<u8>| d@),
                        },
                    ),
                    ..old(self)@
                }),
                Err(e) => r is Err && (r matches Err(x) ==> x@ == e) && final(self)@ == old(self)@,
            }),
    {
        match IndexTable::parse(index) {
            Ok(table) => {
                let ghost before = self@.chunks;
                self.chunks.push(
                    Chunk { repository_id, category_id, chunk_id, index: table, dats },
                );
                proof {
                    assert(self@.chunks =~= before.push(self.chunks@.last()@));
                }
                Ok(())
            },
            Err(e) => Err(e),
        }
    }

    /// The index of the first repository with that folded name, else the
    /// first with the default name.
    fn match_repo(&self, v: &Vec<char>, from: usize, to: usize) -> (r: Option<usize>)
        requires
            from <= to <= v@.len(),
        ensures
            (match r {
                Some(i) => i < self@.repositories.len() && spec_find_repo(
                    self@.repositories,
                    v@.subrange(from as int, to as int),
                    self@.default_repository,
                ) == Some(self@.repositories[i as int]),
                None => spec_find_repo(
                    self@.repositories,
                    v@.subrange(from as int, to as int),
                    self@.default_repository,
                ) is None,
            }),
    {
        let mut i: usize = 0;
        while i < self.repositories.len()
            invariant
                from <= to <= v@.len(),
                i <= self@.repositories.len(),
                forall|k: int|
                    0 <= k < i ==> self@.repositories[k].name != v@.subrange(
                        from as int,
                        to as int,
                    ),
            decreases self@.repositories.len() - i,
        {
            if eq_char_range(v, from, to, self.repositories[i].name.as_str()) {
                proof {
                    lemma_repo_named_at(
                        self@.repositories,
                        v@.subrange(from as int, to as int),
                        i as int,
                    );
                }
                return Some(i);
            }
            i = i + 1;
        }
        proof {
            lemma_repo_named_none(self@.repositories, v@.subrange(from as int, to as int));
        }
        let dchars = chars_vec(self.default_repository.as_str());
        let mut i: usize = 0;
        while i < self.repositories.len()
            invariant
                from <= to <= v@.len(),
                spec_repo_named(
                    self@.repositories,
                    v@.subrange(from as int, to as int),
                ) is None,
                dchars@ == self@.default_repository,
                i <= self@.repositories.len(),
                forall|k: int| 0 <= k < i ==> self@.repositories[k].name != dchars@,
            decreases self@.repositories.len() - i,
        {
            if eq_char_range(&dchars, 0, dchars.len(), self.repositories[i].name.as_str()) {
                proof {
                    assert(dchars@.subrange(0, dchars@.len() as int) =~= dchars@);
                    lemma_repo_named_at(self@.repositories, dchars@, i as int);
                }
                return Some(i);
            }
            proof {
                assert(dchars@.subrange(0, dchars@.len() as int) =~= dchars@);
            }
            i = i + 1;
        }
        proof {
            lemma_repo_named_none(self@.repositories, dchars@);
        }
        None
    }

    /// The index of the first category with that folded name.
    fn match_cat(&self, v: &Vec<char>, from: usize, to: usize) -> (r: Option<usize>)
        requires
            from <= to <= v@.len(),
        ensures
            (match r {
                Some(i) => i < self@.categories.len() && spec_cat_named(
                    self@.categories,
                    v@.subrange(from as int, to as int),
                ) == Some(self@.categories[i as int]),
                None => spec_cat_named(
                    self@.categories,
                    v@.subrange(from as int, to as int),
                ) is None,
            }),
    {
        let mut i: usize = 0;
        while i < self.categories.len()
            invariant
                from <= to <= v@.len(),
                i <= self@.categories.len(),
                forall|k: int|
                    0 <= k < i ==> self@.categories[k].name != v@.subrange(from as int, to as int),
            decreases self@.categories.len() - i,
        {
            if eq_char_range(v, from, to, self.categories[i].name.as_str()) {
                proof {
                    lemma_cat_named_at(
                        self@.categories,
                        v@.subrange(from as int, to as int),
                        i as int,
                    );
                }
                return Some(i);
            }
            i = i + 1;
        }
        proof {
            lemma_cat_named_none(self@.categories, v@.subrange(from as int, to as int));
        }
        None
    }

    /// The first chunk of the repository and category whose index
    /// carries `key`.
    fn chunk_lookup(&self, rid: u8, cid: u8, key: u64) -> (r: Option<(usize, IndexEntry)>)
        ensures
            (match r {
                Some(ie) => ie.0 < self@.chunks.len() && spec_chunk_lookup(
                    self@.chunks,
                    rid,
                    cid,
                    key,
                ) == Some((self@.chunks[ie.0 as int], ie.1)),
                None => spec_chunk_lookup(self@.chunks, rid, cid, key) is None,
            }),
    {
        let mut i: usize = 0;
        while i < self.chunks.len()
            invariant
                i <= self@.chunks.len(),
                forall|k: int|
                    0 <= k < i ==> !(self@.chunks[k].repository_id == rid
                        && self@.chunks[k].category_id == cid && spec_find_entry(
                        self@.chunks[k].entries,
                        key,
                    ) is Some),
            decreases self@.chunks.len() - i,
        {
            let c = &self.chunks[i];
            if c.repository_id == rid && c.category_id == cid {
                match c.index.lookup(key) {
                    Some(e) => {
                        proof {
                            lemma_chunk_lookup_at(self@.chunks, rid, cid, key, i as int);
                        }
                        return Some((i, e));
                    },
                    None => {},
                }
            }
            i = i + 1;
        }
        proof {
            lemma_chunk_lookup_none(self@.chunks, rid, cid, key);
        }
        None
    }

    /// Try to read the file at `sqpack_path` as raw bytes from the
    /// SqPack database.
    #[verifier::rlimit(100)]
    pub fn read_file(&self, sqpack_path: &str) -> (r: Result<Vec<u8>, Error>)
        ensures
            res_matches(r, spec_sqpack_read(self@, sqpack_path@, sqpack_path.spec_bytes())),
    {
        let pchars = chars_vec(sqpack_path);
        let folded = fold_chars_vec(&pchars);
        let p1 = find_char_vec(&folded, 0, '/');
        proof {
            lemma_find_char_range(folded@, 0, '/');
        }
        if p1 == folded.len() {
            return Err(Error::InvalidPath(sqpack_path.to_owned()));
        }
        let p2 = find_char_vec(&folded, p1 + 1, '/');
        proof {
            lemma_find_char_range(folded@, p1 + 1, '/');
        }
        let ri = match self.match_repo(&folded, p1 + 1, p2) {
            Some(i) => i,
            None => {
                let mut m = String::from_str("Repository ");
                push_chars_range(&mut m, &pchars, p1 + 1, p2);
                return Err(Error::NotFound(m));
            },
        };
        let ci = match self.match_cat(&folded, 0, p1) {
            Some(i) => i,
            None => {
                let mut m = String::from_str("Category ");
                push_chars_range(&mut m, &pchars, 0, p1);
                return Err(Error::NotFound(m));
            },
        };
        let fb = fold_bytes_vec(sqpack_path.as_bytes());
        proof {
            crate::pathutil::lemma_rfind_byte_range(fb@, 47);
        }
        let key: u64 = match rfind_byte_vec(&fb, 47) {
            Some(s) => {
                let n: usize = fb.len();
                let cd = crc32_range(&fb, 0, s);
                let cf = crc32_range(&fb, s + 1, n);
                cd as u64 * 0x100000000 + cf as u64
            },
            None => {
                let cd = crc32_range(&fb, 0, 0);
                let cf = crc32_range(&fb, 0, fb.len());
                proof {
                    assert(fb@.subrange(0, 0) =~= Seq::<u8>::empty());
                    assert(fb@.subrange(0, fb@.len() as int) =~= fb@);
                }
                cd as u64 * 0x100000000 + cf as u64
            },
        };
        let rid = self.repositories[ri].id;
        let cid = self.categories[ci].id;
        match self.chunk_lookup(rid, cid, key) {
            None => {
                let mut m = String::from_str("Path ");
                push_chars(&mut m, &pchars);
                Err(Error::NotFound(m))
            },
            Some((chunk_i, e)) => {
                let c = &self.chunks[chunk_i];
                if e.data_file_id as usize >= c.dats.len() {
                    let mut m = String::from_str("Failed to read file. Data file ");
                    push_dec(&mut m, e.data_file_id as u128);
                    m.append(" is missing.");
                    proof {
                        assert(m@ =~= "Failed to read file. Data file "@ + spec_dec(
                            e.data_file_id as int,
                        ) + " is missing."@);
                    }
                    Err(Error::Resource(m))
                } else {
                    crate::file::read_file(&c.dats[e.data_file_id as usize], e.offset)
                }
            },
        }
    }
}

impl SqPack {
    /// Split a path into its category and repository segments: the text
    /// before the first slash and the text between the first and second.
    pub fn parse_segments<'b>(&self, path: &'b str) -> (r: Result<(&'b str, &'b str), Error>)
        ensures
            (match r {
                Ok(segs) => ({
                    let p1 = spec_find_char(path@, 0, '/');
                    let p2 = spec_find_char(path@, p1 + 1, '/');
                    &&& p1 < path@.len()
                    &&& segs.0@ == path@.subrange(0, p1)
                    &&& segs.1@ == path@.subrange(p1 + 1, p2)
                }),
                Err(e) => spec_find_char(path@, 0, '/') == path@.len() && e@ == ErrorV::InvalidPath(
                    path@,
                ),
            }),
    {
        let pchars = chars_vec(path);
        let p1 = find_char_vec(&pchars, 0, '/');
        proof {
            lemma_find_char_range(pchars@, 0, '/');
        }
        if p1 == pchars.len() {
            return Err(Error::InvalidPath(path.to_owned()));
        }
        let p2 = find_char_vec(&pchars, p1 + 1, '/');
        proof {
            lemma_find_char_range(pchars@, p1 + 1, '/');
        }
        let cat = path.substring_char(0, p1);
        let rep = path.substring_char(p1 + 1, p2);
        Ok((cat, rep))
    }

    /// The repository a segment names, with the default repository
    /// standing in for an unknown one.
    pub fn get_repository(&self, repository_name: &str) -> (r: Result<&Repository, Error>)
        ensures
            (match r {
                Ok(rep) => spec_find_repo(
                    self@.repositories,
                    repository_name@,
                    self@.default_repository,
                ) == Some(rep@),
                Err(e) => spec_find_repo(
                    self@.repositories,
                    repository_name@,
                    self@.default_repository,
                ) is None && e@ == ErrorV::NotFound("Repository "@ + repository_name@),
            }),
    {
        let chars = chars_vec(repository_name);
        proof {
            assert(chars@.subrange(0, chars@.len() as int) =~= chars@);
        }
        match self.match_repo(&chars, 0, chars.len()) {
            Some(i) => Ok(&self.repositories[i]),
            None => {
                let mut m = String::from_str("Repository ");
                m.append(repository_name);
                Err(Error::NotFound(m))
            },
        }
    }

    /// The category a segment names.
    pub fn get_category(&self, category_name: &str) -> (r: Result<&Category, Error>)
        ensures
            (match r {
                Ok(cat) => spec_cat_named(self@.categories, category_name@) == Some(cat@),
                Err(e) => spec_cat_named(self@.categories, category_name@) is None && e@
                    == ErrorV::NotFound("Category "@ + category_name@),
            }),
    {
        let chars = chars_vec(category_name);
        proof {
            assert(chars@.subrange(0, chars@.len() as int) =~= chars@);
        }
        match self.match_cat(&chars, 0, chars.len()) {
            Some(i) => Ok(&self.categories[i]),
            None => {
                let mut m = String::from_str("Category ");
                m.append(category_name);
                Err(Error::NotFound(m))
            },
        }
    }
}

/// Resolution is blind to case: a path that resolves to bytes resolves
/// to the same bytes with its letters uppercased, since case is folded
/// before any matching or hashing.
pub proof fn lemma_read_case_insensitive(sq: SqPackV, pchars: Seq<char>, pbytes: Seq<u8>)
    requires
        spec_sqpack_read(sq, pchars, pbytes) is Ok,
    ensures
        spec_sqpack_read(
            sq,
            crate::pathutil::upper_chars(pchars),
            crate::pathutil::upper_bytes(pbytes),
        ) == spec_sqpack_read(sq, pchars, pbytes),
{
    crate::pathutil::lemma_fold_upper_chars(pchars);
    crate::pathutil::lemma_fold_upper_bytes(pbytes);
}

/// When nothing before `i` bears the name and `repos[i]` does, the
/// first bearer is `repos[i]`.
proof fn lemma_repo_named_at(repos: Seq<RepositoryV>, name: Seq<char>, i: int)
    requires
        0 <= i < repos.len(),
        forall|k: int| 0 <= k < i ==> repos[k].name != name,
        repos[i].name == name,
    ensures
        spec_repo_named(repos, name) == Some(repos[i]),
    decreases i,
{
    if i > 0 {
        lemma_repo_named_at(repos.drop_first(), name, i - 1);
    }
}

/// When nothing bears the name, the search yields nothing.
proof fn lemma_repo_named_none(repos: Seq<RepositoryV>, name: Seq<char>)
    requires
        forall|k: int| 0 <= k < repos.len() ==> repos[k].name != name,
    ensures
        spec_repo_named(repos, name) is None,
    decreases repos.len(),
{
    if repos.len() > 0 {
        lemma_repo_named_none(repos.drop_first(), name);
    }
}

/// When nothing before `i` bears the name and `cats[i]` does, the first
/// bearer is `cats[i]`.
proof fn lemma_cat_named_at(cats: Seq<CategoryV>, name: Seq<char>, i: int)
    requires
        0 <= i < cats.len(),
        forall|k: int| 0 <= k < i ==> cats[k].name != name,
        cats[i].name == name,
    ensures
        spec_cat_named(cats, name) == Some(cats[i]),
    decreases i,
{
    if i > 0 {
        lemma_cat_named_at(cats.drop_first(), name, i - 1);
    }
}

/// When nothing bears the name, the search yields nothing.
proof fn lemma_cat_named_none(cats: Seq<CategoryV>, name: Seq<char>)
    requires
        forall|k: int| 0 <= k < cats.len() ==> cats[k].name != name,
    ensures
        spec_cat_named(cats, name) is None,
    decreases cats.len(),
{
    if cats.len() > 0 {
        lemma_cat_named_none(cats.drop_first(), name);
    }
}

/// When no chunk before `i` qualifies and chunk `i` does, the lookup
/// lands on chunk `i`.
proof fn lemma_chunk_lookup_at(chunks: Seq<ChunkV>, rid: u8, cid: u8, key: u64, i: int)
    requires
        0 <= i < chunks.len(),
        forall|k: int|
            0 <= k < i ==> !(chunks[k].repository_id == rid && chunks[k].category_id == cid
                && spec_find_entry(chunks[k].entries, key) is Some),
        chunks[i].repository_id == rid,
        chunks[i].category_id == cid,
        spec_find_entry(chunks[i].entries, key) is Some,
    ensures
        spec_chunk_lookup(chunks, rid, cid, key) == Some(
            (chunks[i], spec_find_entry(chunks[i].entries, key)->0),
        ),
    decreases i,
{
    if i > 0 {
        lemma_chunk_lookup_at(chunks.drop_first(), rid, cid, key, i - 1);
    }
}

/// When no chunk qualifies, the lookup yields nothing.
proof fn lemma_chunk_lookup_none(chunks: Seq<ChunkV>, rid: u8, cid: u8, key: u64)
    requires
        forall|k: int|
            0 <= k < chunks.len() ==> !(chunks[k].repository_id == rid && chunks[k].category_id
                == cid && spec_find_entry(chunks[k].entries, key) is Some),
    ensures
        spec_chunk_lookup(chunks, rid, cid, key) is None,
    decreases chunks.len(),
{
    if chunks.len() > 0 {
        lemma_chunk_lookup_none(chunks.drop_first(), rid, cid, key);
    }
}

} // verus!
