//! In-memory file system over a fixed pool of equally sized blocks.
//!
//! Files occupy a contiguous run of blocks found first-fit in a free-block
//! bitmap; names are unique, and file contents are stored alongside the
//! metadata.

use vstd::prelude::*;

verus! {

/// Metadata of one stored file.
#[derive(Debug, Clone)]
pub struct FileEntry {
    pub name: String,
    pub size: usize,
    pub start_block: usize,
    pub block_count: usize,
}

/// File system failure kinds.
#[derive(Debug, Clone, Copy, PartialEq, Eq, Structural)]
pub enum FsError {
    AlreadyExists,
    NotFound,
    NoSpace,
}

/// Whole blocks needed to store `size` bytes in blocks of `bs` bytes.
pub open spec fn spec_blocks_needed(size: int, bs: int) -> int {
    if size == 0 {
        0
    } else {
        (size + bs - 1) / bs
    }
}

/// Blocks `[s, s + need)` are all free in `fb`.
pub open spec fn run_free(fb: Seq<bool>, s: int, need: int) -> bool {
    forall|b: int| s <= b < s + need ==> fb[b]
}

/// Some contiguous run of `need` free blocks exists.
pub open spec fn has_free_run(fb: Seq<bool>, need: int) -> bool {
    need <= 0 || exists|s: int| 0 <= s && s + need <= fb.len() && #[trigger] run_free(fb, s, need)
}

/// `a` is strictly before `b` in lexicographic character order (the
/// order a name-keyed tree listing produces).
pub open spec fn lex_lt(a: Seq<char>, b: Seq<char>) -> bool
    decreases a.len(),
{
    if b.len() == 0 {
        false
    } else if a.len() == 0 {
        true
    } else if a[0] != b[0] {
        a[0] < b[0]
    } else {
        lex_lt(a.drop_first(), b.drop_first())
    }
}

/// Nothing is lexicographically before itself.
proof fn lemma_lex_irrefl(a: Seq<char>)
    ensures
        !lex_lt(a, a),
    decreases a.len(),
{
    if a.len() > 0 {
        lemma_lex_irrefl(a.drop_first());
    }
}

/// Lexicographic order is transitive.
proof fn lemma_lex_trans(a: Seq<char>, b: Seq<char>, c: Seq<char>)
    requires
        lex_lt(a, b),
        lex_lt(b, c),
    ensures
        lex_lt(a, c),
    decreases a.len() + b.len() + c.len(),
{
    if c.len() > 0 && a.len() > 0 && b.len() > 0 && a[0] == b[0] && b[0] == c[0] {
        lemma_lex_trans(a.drop_first(), b.drop_first(), c.drop_first());
    }
}

/// Any two names are lexicographically ordered one way or the other, or
/// they are the same name.
proof fn lemma_lex_total(a: Seq<char>, b: Seq<char>)
    ensures
        lex_lt(a, b) || lex_lt(b, a) || a == b,
    decreases a.len(),
{
    if a.len() == 0 && b.len() == 0 {
        assert(a =~= b);
    } else if a.len() == 0 || b.len() == 0 {
    } else if a[0] != b[0] {
    } else {
        lemma_lex_total(a.drop_first(), b.drop_first());
        if a.drop_first() == b.drop_first() {
            assert(a =~= Seq::empty().push(a.first()).add(a.drop_first()));
            assert(b =~= Seq::empty().push(b.first()).add(b.drop_first()));
        }
    }
}

/// Equal prefixes do not decide the order: it is decided by the suffixes.
proof fn lemma_lex_skip(a: Seq<char>, b: Seq<char>, i: int)
    requires
        0 <= i <= a.len(),
        i <= b.len(),
        forall|j: int| 0 <= j < i ==> a[j] == b[j],
    ensures
        lex_lt(a, b) == lex_lt(a.skip(i), b.skip(i)),
    decreases i,
{
    if i > 0 {
        assert(a.len() > 0 && b.len() > 0 && a[0] == b[0]);
        assert(a.drop_first().skip(i - 1) =~= a.skip(i));
        assert(b.drop_first().skip(i - 1) =~= b.skip(i));
        lemma_lex_skip(a.drop_first(), b.drop_first(), i - 1);
    } else {
        assert(a.skip(0) =~= a);
        assert(b.skip(0) =~= b);
    }
}

/// Whether `a` orders strictly before `b`.
fn str_lt(a: &str, b: &str) -> (r: bool)
    ensures
        r == lex_lt(a@, b@),
{
    let na = a.unicode_len();
    let nb = b.unicode_len();
    let mut i: usize = 0;
    while i < na && i < nb
        invariant
            i <= na,
            i <= nb,
            na == a@.len(),
            nb == b@.len(),
            forall|j: int| 0 <= j < i ==> a@[j] == b@[j],
        decreases na - i,
    {
        let ca = a.get_char(i);
        let cb = b.get_char(i);
        if ca != cb {
            proof {
                lemma_lex_skip(a@, b@, i as int);
            }
            return (ca as u32) < (cb as u32);
        }
        i = i + 1;
    }
    proof {
        lemma_lex_skip(a@, b@, i as int);
    }
    na < nb
}

/// Block `b` lies inside some stored file's run.
pub open spec fn block_covered(fs: Seq<FileEntry>, b: int) -> bool {
    exists|i: int|
        0 <= i < fs.len() && (#[trigger] fs[i]).start_block <= b < fs[i].start_block
            + fs[i].block_count
}

/// Total blocks owned by the stored files.
pub open spec fn spec_block_sum(fs: Seq<FileEntry>) -> int
    decreases fs.len(),
{
    if fs.len() == 0 {
        0
    } else {
        spec_block_sum(fs.drop_last()) + fs.last().block_count
    }
}

/// Number of free blocks in the bitmap.
pub open spec fn count_free(fb: Seq<bool>) -> int
    decreases fb.len(),
{
    if fb.len() == 0 {
        0
    } else {
        count_free(fb.drop_last()) + if fb.last() {
            1int
        } else {
            0int
        }
    }
}

/// Number of blocks of `[0, n)` that some stored file covers.
pub open spec fn count_covered(fs: Seq<FileEntry>, n: int) -> int
    decreases n,
{
    if n <= 0 {
        0
    } else {
        count_covered(fs, n - 1) + if block_covered(fs, n - 1) {
            1int
        } else {
            0int
        }
    }
}

/// Blocks of `e`'s run that lie below `n`.
pub open spec fn run_overlap(e: FileEntry, n: int) -> int {
    if n <= e.start_block {
        0
    } else if n >= e.start_block + e.block_count {
        e.block_count as int
    } else {
        n - e.start_block
    }
}

/// A bitmap that agrees pointwise with file coverage splits the pool into
/// free and covered blocks.
proof fn lemma_count_free_covered(fb: Seq<bool>, fs: Seq<FileEntry>)
    requires
        forall|b: int| 0 <= b < fb.len() ==> ((!(#[trigger] fb[b])) <==> block_covered(fs, b)),
    ensures
        count_free(fb) + count_covered(fs, fb.len() as int) == fb.len(),
    decreases fb.len(),
{
    if fb.len() > 0 {
        assert(forall|b: int|
            0 <= b < fb.drop_last().len() ==> ((!(#[trigger] fb.drop_last()[b]))
                <==> block_covered(fs, b)));
        lemma_count_free_covered(fb.drop_last(), fs);
        assert(fb.last() == fb[fb.len() - 1]);
    }
}

/// Appending an entry whose run is not yet covered adds exactly the part
/// of its run below `n` to the covered count.
proof fn lemma_count_covered_push(fs: Seq<FileEntry>, e: FileEntry, n: int)
    requires
        forall|b: int|
            e.start_block <= b < e.start_block + e.block_count ==> !block_covered(fs, b),
    ensures
        count_covered(fs.push(e), n) == count_covered(fs, n) + run_overlap(e, n),
    decreases n,
{
    if n > 0 {
        lemma_count_covered_push(fs, e, n - 1);
        let b = n - 1;
        assert(block_covered(fs.push(e), b) == (block_covered(fs, b) || (e.start_block <= b
            < e.start_block + e.block_count))) by {
            if block_covered(fs.push(e), b) {
                let i = choose|i: int|
                    0 <= i < fs.push(e).len() && (#[trigger] fs.push(e)[i]).start_block <= b
                        < fs.push(e)[i].start_block + fs.push(e)[i].block_count;
                if i < fs.len() {
                    assert(fs[i] == fs.push(e)[i]);
                    assert(block_covered(fs, b));
                }
            }
            if block_covered(fs, b) {
                let i = choose|i: int|
                    0 <= i < fs.len() && (#[trigger] fs[i]).start_block <= b < fs[i].start_block
                        + fs[i].block_count;
                assert(fs.push(e)[i] == fs[i]);
                assert(block_covered(fs.push(e), b));
            }
            if e.start_block <= b < e.start_block + e.block_count {
                assert(fs.push(e)[fs.len() as int] == e);
                assert(block_covered(fs.push(e), b));
            }
        }
        if block_covered(fs, b) && e.start_block <= b < e.start_block + e.block_count {
            assert(false);
        }
    }
}

/// No file, no covered block.
proof fn lemma_count_covered_empty(fs: Seq<FileEntry>, n: int)
    requires
        fs.len() == 0,
    ensures
        count_covered(fs, n) == 0,
    decreases n,
{
    if n > 0 {
        lemma_count_covered_empty(fs, n - 1);
        assert(!block_covered(fs, n - 1));
    }
}

/// With disjoint runs that all lie inside the pool, the covered count is
/// the sum of the files' block counts.
proof fn lemma_block_accounting(fs: Seq<FileEntry>, n: int)
    requires
        0 <= n,
        forall|i: int|
            0 <= i < fs.len() ==> (#[trigger] fs[i]).start_block + fs[i].block_count <= n,
        forall|i: int, j: int|
            0 <= i < fs.len() && 0 <= j < fs.len() && i != j && (#[trigger] fs[i]).block_count > 0
                && (#[trigger] fs[j]).block_count > 0 ==> fs[i].start_block + fs[i].block_count
                <= fs[j].start_block || fs[j].start_block + fs[j].block_count
                <= fs[i].start_block,
    ensures
        count_covered(fs, n) == spec_block_sum(fs),
    decreases fs.len(),
{
    if fs.len() == 0 {
        lemma_count_covered_empty(fs, n);
    } else {
        let fs0 = fs.drop_last();
        let e = fs.last();
        assert(fs =~= fs0.push(e));
        assert forall|b: int|
            e.start_block <= b < e.start_block + e.block_count implies !block_covered(
            fs0,
            b,
        ) by {
            if block_covered(fs0, b) {
                let j = choose|j: int|
                    0 <= j < fs0.len() && (#[trigger] fs0[j]).start_block <= b < fs0[j].start_block
                        + fs0[j].block_count;
                assert(fs[j] == fs0[j]);
                assert(fs[j].block_count > 0 && e.block_count > 0);
                assert(fs[fs.len() - 1] == e);
            }
        }
        lemma_count_covered_push(fs0, e, n);
        assert(forall|i: int|
            0 <= i < fs0.len() ==> (#[trigger] fs0[i]).start_block + fs0[i].block_count <= n);
        assert(forall|i: int, j: int|
            0 <= i < fs0.len() && 0 <= j < fs0.len() && i != j && (#[trigger] fs0[i]).block_count
                > 0 && (#[trigger] fs0[j]).block_count > 0 ==> fs0[i].start_block
                + fs0[i].block_count <= fs0[j].start_block || fs0[j].start_block
                + fs0[j].block_count <= fs0[i].start_block);
        lemma_block_accounting(fs0, n);
        assert(fs[fs.len() - 1] == e);
        assert(e.start_block + e.block_count <= n);
        assert(run_overlap(e, n) == e.block_count);
        assert(count_covered(fs, n) == count_covered(fs0.push(e), n));
        assert(spec_block_sum(fs) == spec_block_sum(fs0) + e.block_count);
    }
}

/// In-memory block file system.
pub struct FileSystem {
    /// Number of blocks in the pool.
    pub total_blocks: usize,
    /// Bytes per block.
    pub block_size: usize,
    /// Free-block bitmap: `true` means free.
    pub free_blocks: Vec<bool>,
    /// Stored files' metadata.
    pub files: Vec<FileEntry>,
    /// Stored files' contents, index-aligned with `files`.
    pub data: Vec<Vec<u8>>,
}

impl FileSystem {
    /// Bitmap sized to the pool, contents aligned with metadata, names
    /// unique and kept in ascending name order, and every file's blocks
    /// inside the pool.
    pub open spec fn spec_wf(&self) -> bool {
        &&& self.block_size >= 1
        &&& self.free_blocks@.len() == self.total_blocks
        &&& self.files@.len() == self.data@.len()
        &&& forall|i: int, j: int|
            0 <= i < j < self.files@.len() ==> (#[trigger] self.files@[i]).name@ != (
            #[trigger] self.files@[j]).name@
        &&& forall|i: int, j: int|
            0 <= i < j < self.files@.len() ==> lex_lt(
                (#[trigger] self.files@[i]).name@,
                (#[trigger] self.files@[j]).name@,
            )
        &&& forall|i: int, j: int|
            0 <= i < self.files@.len() && 0 <= j < self.files@.len() && i != j && (
            #[trigger] self.files@[i]).block_count > 0 && (#[trigger] self.files@[j]).block_count
                > 0 ==> self.files@[i].start_block + self.files@[i].block_count
                <= self.files@[j].start_block || self.files@[j].start_block
                + self.files@[j].block_count <= self.files@[i].start_block
        &&& forall|b: int|
            0 <= b < self.total_blocks ==> ((!(#[trigger] self.free_blocks@[b])) <==> block_covered(
                self.files@,
                b,
            ))
        &&& forall|i: int|
            0 <= i < self.files@.len() ==> (#[trigger] self.data@[i])@.len() == self.files@[i].size
        &&& forall|i: int|
            0 <= i < self.files@.len() ==> (#[trigger] self.files@[i]).start_block
                + self.files@[i].block_count <= self.total_blocks
    }

    /// A file of this name exists.
    pub open spec fn contains_name(&self, name: Seq<char>) -> bool {
        exists|i: int| 0 <= i < self.files@.len() && (#[trigger] self.files@[i]).name@ == name
    }

    /// Create an empty file system of `total_blocks` blocks of
    /// `block_size` bytes, with every block free.
    pub fn new(total_blocks: usize, block_size: usize) -> (r: Self)
        requires
            block_size >= 1,
        ensures
            r.spec_wf(),
            r.total_blocks == total_blocks,
            r.block_size == block_size,
            r.files@.len() == 0,
            count_free(r.free_blocks@) == total_blocks,
    {
        let free_blocks = vec![true; total_blocks];
        proof {
            lemma_count_free_uniform(free_blocks@);
        }
        Self { total_blocks, block_size, free_blocks, files: Vec::new(), data: Vec::new() }
    }

    /// Store a new file.
    ///
    /// Fails with `AlreadyExists` exactly when the name is taken, else
    /// with `NoSpace` exactly when no contiguous run of enough free
    /// blocks exists; failure changes nothing.  On success the file is
    /// appended with its content, its blocks (first-fit) become used, and
    /// no other file or block changes.
    #[verifier::rlimit(100)]
    pub fn create_file(&mut self, name: &str, content: &[u8]) -> (r: Result<(), FsError>)
        requires
            old(self).spec_wf(),
        ensures
            final(self).spec_wf(),
            final(self).total_blocks == old(self).total_blocks,
            final(self).block_size == old(self).block_size,
            r == Err::<(), FsError>(FsError::AlreadyExists) <==> old(self).contains_name(name@),
            match r {
                Ok(()) => exists|k: int|
                    {
                        &&& 0 <= k <= old(self).files@.len()
                        &&& final(self).files@ == old(self).files@.insert(
                            k,
                            final(self).files@[k],
                        )
                        &&& final(self).data@ == old(self).data@.insert(k, final(self).data@[k])
                        &&& (#[trigger] final(self).files@[k]).name@ == name@
                        &&& final(self).files@[k].size == content@.len()
                        &&& final(self).files@[k].block_count == spec_blocks_needed(
                            content@.len() as int,
                            old(self).block_size as int,
                        )
                        &&& final(self).data@[k]@ == content@
                        &&& final(self).free_blocks@.len() == old(self).free_blocks@.len()
                        &&& ({
                            let e = final(self).files@[k];
                            &&& (e.block_count > 0 ==> run_free(
                                old(self).free_blocks@,
                                e.start_block as int,
                                e.block_count as int,
                            ))
                            &&& (e.block_count > 0 ==> forall|s2: int|
                                0 <= s2 < e.start_block ==> !(#[trigger] run_free(
                                    old(self).free_blocks@,
                                    s2,
                                    e.block_count as int,
                                )))
                            &&& forall|b: int|
                                0 <= b < old(self).free_blocks@.len() && !(e.start_block <= b
                                    < e.start_block + e.block_count) ==> final(self).free_blocks@[b] == old(self).free_blocks@[b]
                            &&& forall|b: int|
                                e.start_block <= b < e.start_block + e.block_count && b < old(self).free_blocks@.len() ==> final(self).free_blocks@[b] == false
                        })
                    },
                Err(FsError::AlreadyExists) => *final(self) == *old(self),
                Err(FsError::NotFound) => false,
                Err(FsError::NoSpace) => {
                    &&& *final(self) == *old(self)
                    &&& !old(self).contains_name(name@)
                    &&& !has_free_run(
                        old(self).free_blocks@,
                        spec_blocks_needed(content@.len() as int, old(self).block_size as int),
                    )
                },
            },
    {
        let name_s: String = name.to_owned();
        if self.find_file(&name_s).is_some() {
            return Err(FsError::AlreadyExists);
        }

        // the insertion point that keeps the listing in name order
        let n = self.files.len();
        let mut pos: usize = 0;
        while pos < n && str_lt(self.files[pos].name.as_str(), name)
            invariant
                pos <= n,
                n == self.files@.len(),
                *self == *old(self),
                forall|j: int|
                    0 <= j < pos ==> lex_lt((#[trigger] old(self).files@[j]).name@, name@),
            decreases n - pos,
        {
            pos = pos + 1;
        }
        proof {
            if pos < self.files@.len() {
                lemma_lex_total(name@, old(self).files@[pos as int].name@);
                if old(self).files@[pos as int].name@ == name@ {
                    assert(old(self).contains_name(name@));
                }
                assert(lex_lt(name@, old(self).files@[pos as int].name@));
            }
        }

        let needed_blocks = self.blocks_needed(content.len());
        let start_block = match self.find_contiguous_free(needed_blocks) {
            Ok(s) => s,
            Err(e) => {
                return Err(e);
            },
        };
        self.mark_blocks(start_block, needed_blocks, false);

        let entry = FileEntry {
            name: name_s,
            size: content.len(),
            start_block,
            block_count: needed_blocks,
        };

        let mut buf: Vec<u8> = Vec::new();
        buf.extend_from_slice(content);
        let ghost fs0 = self.files@;
        let ghost ds0 = self.data@;
        let ghost entv = entry;
        let ghost bufv = buf;
        self.files.insert(pos, entry);
        self.data.insert(pos, buf);
        proof {
            assert(start_block + needed_blocks <= self.total_blocks);
            assert(fs0 == old(self).files@);
            assert(self.files@ == fs0.insert(pos as int, entv));
            assert(self.data@ == ds0.insert(pos as int, bufv));
            fs0.insert_ensures(pos as int, entv);
            ds0.insert_ensures(pos as int, bufv);
            assert(pos < self.files@.len() && self.files@[pos as int] == entv);
            let fin = self.files@;
            assert forall|i: int, j: int| 0 <= i < j < fin.len() implies lex_lt(
                (#[trigger] fin[i]).name@,
                (#[trigger] fin[j]).name@,
            ) by {
                let p = pos as int;
                assert(fin == fs0.insert(p, entv));
                if j < p {
                    assert(fs0.insert(p, entv)[i] == fs0[i]);
                    assert(fs0.insert(p, entv)[j] == fs0[j]);
                    assert(lex_lt((old(self).files@[i]).name@, (old(self).files@[j]).name@));
                } else if j == p {
                    assert(fs0.insert(p, entv)[i] == fs0[i]);
                    assert(lex_lt((old(self).files@[i]).name@, name@));
                } else if i == p {
                    assert(fs0.insert(p, entv)[j] == fs0[j - 1]);
                    if p < j - 1 {
                        assert(lex_lt(
                            (old(self).files@[p]).name@,
                            (old(self).files@[j - 1]).name@,
                        ));
                        lemma_lex_trans(name@, fs0[p].name@, fs0[j - 1].name@);
                    }
                } else if i < p {
                    assert(fs0.insert(p, entv)[i] == fs0[i]);
                    assert(fs0.insert(p, entv)[j] == fs0[j - 1]);
                    assert(lex_lt((old(self).files@[i]).name@, (old(self).files@[j - 1]).name@));
                } else {
                    assert(fs0.insert(p, entv)[i] == fs0[i - 1]);
                    assert(fs0.insert(p, entv)[j] == fs0[j - 1]);
                    assert(lex_lt(
                        (old(self).files@[i - 1]).name@,
                        (old(self).files@[j - 1]).name@,
                    ));
                }
            }
            assert forall|i: int, j: int| 0 <= i < j < fin.len() implies (
            #[trigger] fin[i]).name@ != (#[trigger] fin[j]).name@ by {
                if fin[i].name@ == fin[j].name@ {
                    lemma_lex_irrefl(fin[i].name@);
                }
            }
            let p = pos as int;
            let s = entv.start_block as int;
            let c = entv.block_count as int;
            assert forall|iq: int, jq: int|
                0 <= iq < fin.len() && 0 <= jq < fin.len() && iq != jq && (
                #[trigger] fin[iq]).block_count > 0 && (#[trigger] fin[jq]).block_count > 0 implies
                fin[iq].start_block + fin[iq].block_count <= fin[jq].start_block
                || fin[jq].start_block + fin[jq].block_count <= fin[iq].start_block by {
                if iq == p || jq == p {
                    let oq = if iq == p {
                        jq
                    } else {
                        iq
                    };
                    let o = if oq < p {
                        oq
                    } else {
                        oq - 1
                    };
                    assert(fs0.insert(p, entv)[oq] == fs0[o]);
                    let e_old = old(self).files@[o];
                    if !(entv.start_block + entv.block_count <= e_old.start_block
                        || e_old.start_block + e_old.block_count <= entv.start_block) {
                        let b0 = if s >= e_old.start_block {
                            s
                        } else {
                            e_old.start_block as int
                        };
                        assert(e_old.start_block <= b0 < e_old.start_block + e_old.block_count);
                        assert(block_covered(old(self).files@, b0));
                        assert(!old(self).free_blocks@[b0]);
                        assert(old(self).free_blocks@[b0]);
                    }
                } else {
                    let oi = if iq < p {
                        iq
                    } else {
                        iq - 1
                    };
                    let oj = if jq < p {
                        jq
                    } else {
                        jq - 1
                    };
                    assert(fs0.insert(p, entv)[iq] == fs0[oi]);
                    assert(fs0.insert(p, entv)[jq] == fs0[oj]);
                    assert(old(self).files@[oi].block_count > 0 && old(
                        self,
                    ).files@[oj].block_count > 0 && oi != oj);
                }
            }
            assert forall|b: int|
                0 <= b < self.total_blocks implies ((!(#[trigger] self.free_blocks@[b]))
                <==> block_covered(fin, b)) by {
                if s <= b < s + c {
                    assert(!self.free_blocks@[b]);
                    assert(fin[p].start_block <= b < fin[p].start_block + fin[p].block_count);
                    assert(block_covered(fin, b));
                } else {
                    assert(self.free_blocks@[b] == old(self).free_blocks@[b]);
                    if block_covered(fin, b) {
                        let iq = choose|iq: int|
                            0 <= iq < fin.len() && (#[trigger] fin[iq]).start_block <= b
                                < fin[iq].start_block + fin[iq].block_count;
                        assert(iq != p);
                        let o = if iq < p {
                            iq
                        } else {
                            iq - 1
                        };
                        assert(fs0.insert(p, entv)[iq] == fs0[o]);
                        assert((old(self).files@[o]).start_block <= b < old(
                            self,
                        ).files@[o].start_block + old(self).files@[o].block_count);
                        assert(block_covered(old(self).files@, b));
                    }
                    if block_covered(old(self).files@, b) {
                        let o = choose|o: int|
                            0 <= o < old(self).files@.len() && (#[trigger] old(
                                self,
                            ).files@[o]).start_block <= b < old(self).files@[o].start_block + old(
                                self,
                            ).files@[o].block_count;
                        let iq = if o < p {
                            o
                        } else {
                            o + 1
                        };
                        assert(fs0.insert(p, entv)[iq] == fs0[o]);
                        assert((fin[iq]).start_block <= b < fin[iq].start_block
                            + fin[iq].block_count);
                        assert(block_covered(fin, b));
                    }
                }
            }
        }
        Ok(())
    }

    /// Read a file's content; fails with `NotFound` exactly when the name
    /// is absent.
    pub fn read_file(&self, name: &str) -> (r: Result<&[u8], FsError>)
        requires
            self.spec_wf(),
        ensures
            (r is Ok) <==> self.contains_name(name@),
            match r {
                Ok(d) => exists|i: int|
                    0 <= i < self.files@.len() && (#[trigger] self.files@[i]).name@ == name@
                        && d@ == self.data@[i]@,
                Err(e) => e == FsError::NotFound,
            },
    {
        let name_s: String = name.to_owned();
        match self.find_file(&name_s) {
            Some(i) => Ok(self.data[i].as_slice()),
            None => Err(FsError::NotFound),
        }
    }

    /// Delete a file; exactly its blocks become free again.  Fails with
    /// `NotFound` exactly when the name is absent, changing nothing.
    pub fn delete_file(&mut self, name: &str) -> (r: Result<(), FsError>)
        requires
            old(self).spec_wf(),
        ensures
            final(self).spec_wf(),
            final(self).total_blocks == old(self).total_blocks,
            final(self).block_size == old(self).block_size,
            (r is Ok) <==> old(self).contains_name(name@),
            match r {
                Ok(()) => {
                    &&& !final(self).contains_name(name@)
                    &&& final(self).free_blocks@.len() == old(self).free_blocks@.len()
                    &&& exists|i: int|
                        {
                            &&& 0 <= i < old(self).files@.len()
                            &&& (#[trigger] old(self).files@[i]).name@ == name@
                            &&& final(self).files@ == old(self).files@.remove(i)
                            &&& final(self).data@ == old(self).data@.remove(i)
                            &&& ({
                                let e = old(self).files@[i];
                                &&& forall|b: int|
                                    0 <= b < old(self).free_blocks@.len() && !(e.start_block <= b
                                        < e.start_block + e.block_count) ==> final(self).free_blocks@[b] == old(self).free_blocks@[b]
                                &&& forall|b: int|
                                    e.start_block <= b < e.start_block + e.block_count && b < old(self).free_blocks@.len() ==> final(self).free_blocks@[b] == true
                            })
                        }
                    &&& forall|n: Seq<char>|
                        n != name@ ==> (#[trigger] final(self).contains_name(n)) == old(self).contains_name(n)
                },
                Err(e) => {
                    &&& e == FsError::NotFound
                    &&& *final(self) == *old(self)
                },
            },
    {
        let name_s: String = name.to_owned();
        let i = match self.find_file(&name_s) {
            Some(i) => i,
            None => {
                return Err(FsError::NotFound);
            },
        };
        let entry = self.files.remove(i);
        self.data.remove(i);
        self.mark_blocks(entry.start_block, entry.block_count, true);
        proof {
            assert(!self.contains_name(name@)) by {
                if self.contains_name(name@) {
                    let j = choose|j: int|
                        0 <= j < self.files@.len() && (#[trigger] self.files@[j]).name@ == name@;
                    if j < i {
                        assert(old(self).files@[j].name@ == name@);
                    } else {
                        assert(old(self).files@[j + 1].name@ == name@);
                    }
                }
            }
            assert forall|n: Seq<char>| n != name@ implies (#[trigger] self.contains_name(n))
                == old(self).contains_name(n) by {
                if self.contains_name(n) {
                    let j = choose|j: int|
                        0 <= j < self.files@.len() && (#[trigger] self.files@[j]).name@ == n;
                    if j < i {
                        assert(old(self).files@[j].name@ == n);
                    } else {
                        assert(old(self).files@[j + 1].name@ == n);
                    }
                }
                if old(self).contains_name(n) {
                    let j = choose|j: int|
                        0 <= j < old(self).files@.len() && (#[trigger] old(self).files@[j]).name@
                            == n;
                    if j < i {
                        assert(self.files@[j].name@ == n);
                    } else {
                        assert(j != i);
                        assert(self.files@[j - 1].name@ == n);
                    }
                }
            }
            let p = i as int;
            let fs0 = old(self).files@;
            let fin = self.files@;
            let e = fs0[p];
            fs0.remove_ensures(p);
            assert(fin == fs0.remove(p));
            assert forall|b: int|
                0 <= b < self.total_blocks implies ((!(#[trigger] self.free_blocks@[b]))
                <==> block_covered(fin, b)) by {
                let s = e.start_block as int;
                let c = e.block_count as int;
                if s <= b < s + c {
                    assert(self.free_blocks@[b]);
                    if block_covered(fin, b) {
                        let jq = choose|jq: int|
                            0 <= jq < fin.len() && (#[trigger] fin[jq]).start_block <= b
                                < fin[jq].start_block + fin[jq].block_count;
                        let o = if jq < p {
                            jq
                        } else {
                            jq + 1
                        };
                        assert(fs0.remove(p)[jq] == fs0[o]);
                        assert(old(self).files@[o].start_block <= b < old(
                            self,
                        ).files@[o].start_block + old(self).files@[o].block_count);
                        assert(old(self).files@[o].block_count > 0 && old(
                            self,
                        ).files@[p].block_count > 0 && o != p);
                        assert(false);
                    }
                } else {
                    assert(self.free_blocks@[b] == old(self).free_blocks@[b]);
                    if block_covered(fin, b) {
                        let jq = choose|jq: int|
                            0 <= jq < fin.len() && (#[trigger] fin[jq]).start_block <= b
                                < fin[jq].start_block + fin[jq].block_count;
                        let o = if jq < p {
                            jq
                        } else {
                            jq + 1
                        };
                        assert(fs0.remove(p)[jq] == fs0[o]);
                        assert((old(self).files@[o]).start_block <= b < old(
                            self,
                        ).files@[o].start_block + old(self).files@[o].block_count);
                        assert(block_covered(fs0, b));
                    }
                    if block_covered(fs0, b) {
                        let o = choose|o: int|
                            0 <= o < fs0.len() && (#[trigger] fs0[o]).start_block <= b
                                < fs0[o].start_block + fs0[o].block_count;
                        assert(o != p);
                        let jq = if o < p {
                            o
                        } else {
                            o - 1
                        };
                        assert(fs0.remove(p)[jq] == fs0[o]);
                        assert(fin[jq].start_block <= b < fin[jq].start_block
                            + fin[jq].block_count);
                        assert(block_covered(fin, b));
                    }
                }
            }
        }
        Ok(())
    }

    /// List the stored files' metadata, in ascending name order.
    pub fn list_files(&self) -> (r: Vec<FileEntry>)
        requires
            self.spec_wf(),
        ensures
            r@.len() == self.files@.len(),
            forall|i: int, j: int|
                0 <= i < j < r@.len() ==> lex_lt((#[trigger] r@[i]).name@, (#[trigger] r@[j]).name@),
            forall|i: int|
                0 <= i < r@.len() ==> (#[trigger] r@[i]).name@ == self.files@[i].name@
                    && r@[i].size == self.files@[i].size && r@[i].start_block
                    == self.files@[i].start_block && r@[i].block_count
                    == self.files@[i].block_count,
    {
        let mut out: Vec<FileEntry> = Vec::new();
        let n = self.files.len();
        let mut i: usize = 0;
        while i < n
            invariant
                i <= n,
                n == self.files@.len(),
                out@.len() == i,
                forall|j: int|
                    0 <= j < i ==> (#[trigger] out@[j]).name@ == self.files@[j].name@
                        && out@[j].size == self.files@[j].size && out@[j].start_block
                        == self.files@[j].start_block && out@[j].block_count
                        == self.files@[j].block_count,
            decreases n - i,
        {
            let f = &self.files[i];
            out.push(
                FileEntry {
                    name: f.name.clone(),
                    size: f.size,
                    start_block: f.start_block,
                    block_count: f.block_count,
                },
            );
            i = i + 1;
        }
        out
    }

    /// Number of used blocks: the pool size minus the free blocks, which
    /// is exactly the blocks the stored files own.
    pub fn used_blocks(&self) -> (r: usize)
        requires
            self.spec_wf(),
        ensures
            r == self.total_blocks - count_free(self.free_blocks@),
            r == spec_block_sum(self.files@),
    {
        proof {
            lemma_count_free_covered(self.free_blocks@, self.files@);
            lemma_block_accounting(self.files@, self.total_blocks as int);
        }
        let n = self.free_blocks.len();
        let mut free: usize = 0;
        let mut i: usize = 0;
        while i < n
            invariant
                i <= n,
                n == self.free_blocks@.len(),
                free == count_free(self.free_blocks@.take(i as int)),
                free <= i,
            decreases n - i,
        {
            proof {
                assert(self.free_blocks@.take(i as int + 1).drop_last() =~= self.free_blocks@.take(
                    i as int,
                ));
            }
            if self.free_blocks[i] {
                free = free + 1;
            }
            i = i + 1;
        }
        proof {
            assert(self.free_blocks@.take(n as int) =~= self.free_blocks@);
        }
        self.total_blocks - free
    }

    /// Index of the file with this name, if any.
    fn find_file(&self, name: &String) -> (r: Option<usize>)
        ensures
            match r {
                Some(i) => i < self.files@.len() && self.files@[i as int].name@ == name@,
                None => !self.contains_name(name@),
            },
    {
        let n = self.files.len();
        let mut i: usize = 0;
        while i < n
            invariant
                i <= n,
                n == self.files@.len(),
                forall|j: int| 0 <= j < i ==> (#[trigger] self.files@[j]).name@ != name@,
            decreases n - i,
        {
            if self.files[i].name == *name {
                return Some(i);
            }
            i = i + 1;
        }
        None
    }

    /// Whole blocks needed for `size` bytes.
    fn blocks_needed(&self, size: usize) -> (r: usize)
        requires
            self.block_size >= 1,
        ensures
            r == spec_blocks_needed(size as int, self.block_size as int),
    {
        if size == 0 {
            0
        } else {
            let r = (size - 1) / self.block_size + 1;
            proof {
                let s = size as int;
                let bs = self.block_size as int;
                vstd::arithmetic::div_mod::lemma_fundamental_div_mod(s - 1, bs);
                vstd::arithmetic::div_mod::lemma_fundamental_div_mod(s + bs - 1, bs);
                vstd::arithmetic::div_mod::lemma_mod_bound(s - 1, bs);
                vstd::arithmetic::div_mod::lemma_mod_bound(s + bs - 1, bs);
                let q1 = (s - 1) / bs;
                let q2 = (s + bs - 1) / bs;
                assert(q2 == q1 + 1) by (nonlinear_arith)
                    requires
                        bs >= 1,
                        s >= 1,
                        s - 1 == bs * q1 + (s - 1) % bs,
                        s + bs - 1 == bs * q2 + (s + bs - 1) % bs,
                        0 <= (s - 1) % bs < bs,
                        0 <= (s + bs - 1) % bs < bs,
                ;
            }
            r
        }
    }

    /// First-fit search for `blocks` contiguous free blocks.
    ///
    /// Returns the start of the first free run (no earlier run exists),
    /// or `NoSpace` exactly when no such run exists anywhere in the
    /// bitmap.
    fn find_contiguous_free(&self, blocks: usize) -> (r: Result<usize, FsError>)
        ensures
            match r {
                Ok(s) => if blocks == 0 {
                    s == 0
                } else {
                    &&& s + blocks <= self.free_blocks@.len()
                    &&& run_free(self.free_blocks@, s as int, blocks as int)
                    &&& forall|s2: int|
                        0 <= s2 < s ==> !(#[trigger] run_free(
                            self.free_blocks@,
                            s2,
                            blocks as int,
                        ))
                },
                Err(e) => {
                    &&& e == FsError::NoSpace
                    &&& !has_free_run(self.free_blocks@, blocks as int)
                },
            },
    {
        if blocks == 0 {
            return Ok(0);
        }

        let n = self.free_blocks.len();
        let mut count: usize = 0;
        let mut start: usize = 0;
        let mut i: usize = 0;
        while i < n
            invariant
                i <= n,
                n == self.free_blocks@.len(),
                blocks >= 1,
                count < blocks,
                start + count == i,
                run_free(self.free_blocks@, start as int, count as int),
                count > 0 && start > 0 ==> !self.free_blocks@[start as int - 1],
                count == 0 && i > 0 ==> !self.free_blocks@[i as int - 1],
                forall|s: int|
                    0 <= s && s + blocks <= i ==> !(#[trigger] run_free(
                        self.free_blocks@,
                        s,
                        blocks as int,
                    )),
            decreases n - i,
        {
            if self.free_blocks[i] {
                if count == 0 {
                    start = i;
                }
                count = count + 1;
                if count == blocks {
                    proof {
                        assert forall|b: int| start <= b < start + blocks implies self.free_blocks@[b] by {
                            if b < i as int {
                                assert(run_free(self.free_blocks@, start as int, (count - 1) as int));
                            }
                        }
                    }
                    return Ok(start);
                }
                proof {
                    assert forall|s: int| 0 <= s && s + blocks <= i + 1 implies !run_free(
                        self.free_blocks@,
                        s,
                        blocks as int,
                    ) by {
                        if s + blocks == i + 1 {
                            if s >= start {
                                assert(i + 1 - s <= count);
                                assert(false);
                            } else {
                                assert(s <= start as int - 1 && start as int - 1 < s + blocks);
                                if start > 0 {
                                    assert(!self.free_blocks@[start as int - 1]);
                                }
                            }
                        }
                    }
                }
            } else {
                count = 0;
                start = i + 1;
                proof {
                    assert forall|s: int| 0 <= s && s + blocks <= i + 1 implies !run_free(
                        self.free_blocks@,
                        s,
                        blocks as int,
                    ) by {
                        if s + blocks == i + 1 {
                            assert(s <= i as int && (i as int) < s + blocks);
                            assert(!self.free_blocks@[i as int]);
                        }
                    }
                }
            }
            i = i + 1;
        }
        proof {
            assert(!has_free_run(self.free_blocks@, blocks as int)) by {
                if has_free_run(self.free_blocks@, blocks as int) {
                    let s = choose|s: int|
                        0 <= s && s + blocks <= self.free_blocks@.len() && #[trigger] run_free(
                            self.free_blocks@,
                            s,
                            blocks as int,
                        );
                    assert(!run_free(self.free_blocks@, s, blocks as int));
                }
            }
        }
        Err(FsError::NoSpace)
    }

    /// Mark `blocks` blocks from `start` as free or used, ignoring
    /// out-of-range indices.
    fn mark_blocks(&mut self, start: usize, blocks: usize, free: bool)
        requires
            start + blocks <= usize::MAX,
        ensures
            final(self).free_blocks@.len() == old(self).free_blocks@.len(),
            forall|b: int|
                0 <= b < old(self).free_blocks@.len() && !(start <= b < start + blocks)
                    ==> final(self).free_blocks@[b] == old(self).free_blocks@[b],
            forall|b: int|
                start <= b < start + blocks && b < old(self).free_blocks@.len()
                    ==> final(self).free_blocks@[b] == free,
            final(self).total_blocks == old(self).total_blocks,
            final(self).block_size == old(self).block_size,
            final(self).files == old(self).files,
            final(self).data == old(self).data,
    {
        let mut i: usize = start;
        while i < start + blocks
            invariant
                start <= i <= start + blocks,
                start + blocks <= usize::MAX,
                self.free_blocks@.len() == old(self).free_blocks@.len(),
                self.total_blocks == old(self).total_blocks,
                self.block_size == old(self).block_size,
                self.files == old(self).files,
                self.data == old(self).data,
                forall|b: int|
                    0 <= b < old(self).free_blocks@.len() && !(start <= b < i)
                        ==> self.free_blocks@[b] == old(self).free_blocks@[b],
                forall|b: int|
                    start <= b < i && b < old(self).free_blocks@.len()
                        ==> self.free_blocks@[b] == free,
            decreases start + blocks - i,
        {
            if i < self.free_blocks.len() {
                self.free_blocks.set(i, free);
            }
            i = i + 1;
        }
    }
}

/// A uniform bitmap's free count is its length times the bit.
proof fn lemma_count_free_uniform(fb: Seq<bool>)
    requires
        forall|i: int| 0 <= i < fb.len() ==> fb[i],
    ensures
        count_free(fb) == fb.len(),
    decreases fb.len(),
{
    if fb.len() > 0 {
        lemma_count_free_uniform(fb.drop_last());
    }
}

} // verus!
