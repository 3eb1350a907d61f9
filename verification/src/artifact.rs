//! Reading produced artifacts (files / named outputs) for check
//! evaluation; an in-memory reader for tests and embedded hosts.

use vstd::prelude::*;

use crate::error::RuntimeError;

verus! {

/// The bytes of the first entry named `k`, if any.
pub open spec fn file_lookup(fs: Seq<(String, Vec<u8>)>, k: Seq<char>) -> Option<Seq<u8>>
    decreases fs.len(),
{
    if fs.len() == 0 {
        None
    } else if fs[0].0@ == k {
        Some(fs[0].1@)
    } else {
        file_lookup(fs.drop_first(), k)
    }
}

/// A fresh vector holding `bytes`.
pub fn copy_bytes(bytes: &[u8]) -> (data: Vec<u8>)
    ensures
        data@ == bytes@,
{
    let mut data: Vec<u8> = Vec::new();
    let mut k: usize = 0;
    while k < bytes.len()
        invariant
            k <= bytes@.len(),
            data@ == bytes@.subrange(0, k as int),
        decreases bytes@.len() - k,
    {
        data.push(bytes[k]);
        k = k + 1;
        assert(data@ =~= bytes@.subrange(0, k as int));
    }
    assert(bytes@.subrange(0, bytes@.len() as int) =~= bytes@);
    data
}

/// Reads produced artifacts so that checks can inspect them; hosts
/// implement it over their storage. `Ok(None)` means the path does not
/// exist.
pub trait ArtifactReader {
    /// The bytes stored at `path`, `Ok(None)` when there is nothing.
    fn read_path(&self, path: &str) -> Result<Option<Vec<u8>>, RuntimeError>;
}

/// An in-memory path → bytes store.
#[derive(Debug)]
pub struct InMemoryArtifactReader {
    files: Vec<(String, Vec<u8>)>,
}

impl InMemoryArtifactReader {
    /// The bytes stored under `path`, if any.
    pub closed spec fn lookup(&self, path: Seq<char>) -> Option<Seq<u8>> {
        file_lookup(self.files@, path)
    }

    /// An empty reader.
    pub fn new() -> (r: Self)
        ensures
            forall|p: Seq<char>| #[trigger] r.lookup(p) is None,
    {
        InMemoryArtifactReader { files: Vec::new() }
    }

    /// Seeds `path` with `bytes`, replacing what was stored there.
    pub fn with_file(self, path: &str, bytes: &[u8]) -> (r: Self)
        ensures
            r.lookup(path@) == Some(bytes@),
            forall|p: Seq<char>| p != path@ ==> #[trigger] r.lookup(p) == self.lookup(p),
    {
        let ghost old_files = self.files@;
        let mut files = self.files;
        let data = copy_bytes(bytes);
        let key = String::from_str(path);
        let mut i: usize = 0;
        while i < files.len()
            invariant
                files@ == old_files,
                self.files@ == old_files,
                key@ == path@,
                data@ == bytes@,
                i <= files@.len(),
                forall|j: int| 0 <= j < i ==> #[trigger] files@[j].0@ != path@,
            decreases files@.len() - i,
        {
            if files[i].0 == key {
                let ghost at = i as int;
                files.set(i, (key, data));
                proof {
                    lemma_lookup_update(old_files, at, path@, bytes@, files@);
                }
                let r = InMemoryArtifactReader { files };
                assert forall|p: Seq<char>| p != path@ implies #[trigger] r.lookup(p) == file_lookup(
                    old_files,
                    p,
                ) by {
                    assert(file_lookup(r.files@, p) == file_lookup(old_files, p));
                };
                return r;
            }
            i = i + 1;
        }
        files.push((key, data));
        proof {
            lemma_lookup_push(old_files, path@, bytes@, files@);
        }
        InMemoryArtifactReader { files }
    }
}

impl ArtifactReader for InMemoryArtifactReader {
    /// The bytes stored under `path`; `Ok(None)` when absent.
    fn read_path(&self, path: &str) -> (r: Result<Option<Vec<u8>>, RuntimeError>)
        ensures
            r matches Ok(o) && match o {
                Some(b) => self.lookup(path@) == Some(b@),
                None => self.lookup(path@) is None,
            },
    {
        let key = String::from_str(path);
        let mut i: usize = 0;
        assert(self.files@.subrange(0, self.files@.len() as int) =~= self.files@);
        while i < self.files.len()
            invariant
                key@ == path@,
                i <= self.files@.len(),
                file_lookup(self.files@, path@) == file_lookup(
                    self.files@.subrange(i as int, self.files@.len() as int),
                    path@,
                ),
            decreases self.files@.len() - i,
        {
            let ghost rest = self.files@.subrange(i as int, self.files@.len() as int);
            assert(rest.drop_first() =~= self.files@.subrange(i + 1, self.files@.len() as int));
            assert(rest[0] == self.files@[i as int]);
            if self.files[i].0 == key {
                let v = copy_bytes(self.files[i].1.as_slice());
                return Ok(Some(v));
            }
            i = i + 1;
        }
        Ok(None)
    }
}

proof fn lemma_lookup_update(
    fs: Seq<(String, Vec<u8>)>,
    at: int,
    k: Seq<char>,
    b: Seq<u8>,
    out: Seq<(String, Vec<u8>)>,
)
    requires
        0 <= at < fs.len(),
        fs[at].0@ == k,
        forall|j: int| 0 <= j < at ==> #[trigger] fs[j].0@ != k,
        out.len() == fs.len(),
        out[at].0@ == k,
        out[at].1@ == b,
        forall|j: int| 0 <= j < fs.len() && j != at ==> #[trigger] out[j] == fs[j],
    ensures
        file_lookup(out, k) == Some(b),
        forall|p: Seq<char>| p != k ==> #[trigger] file_lookup(out, p) == file_lookup(fs, p),
    decreases fs.len(),
{
    if at > 0 {
        let fs2 = fs.drop_first();
        let out2 = out.drop_first();
        assert(out[0] == fs[0]);
        assert(fs[0].0@ != k);
        assert forall|j: int| 0 <= j < at - 1 implies #[trigger] fs2[j].0@ != k by {
            assert(fs2[j] == fs[j + 1]);
        };
        assert forall|j: int| 0 <= j < fs2.len() && j != at - 1 implies #[trigger] out2[j] == fs2[j] by {
            assert(out2[j] == out[j + 1] && fs2[j] == fs[j + 1]);
        };
        assert(fs2[at - 1] == fs[at] && out2[at - 1] == out[at]);
        lemma_lookup_update(fs2, at - 1, k, b, out2);
        assert forall|p: Seq<char>| p != k implies #[trigger] file_lookup(out, p) == file_lookup(
            fs,
            p,
        ) by {
            if fs[0].0@ != p {
                assert(file_lookup(out2, p) == file_lookup(fs2, p));
            }
        };
    } else {
        let fs2 = fs.drop_first();
        let out2 = out.drop_first();
        assert forall|j: int| 0 <= j < fs2.len() implies #[trigger] out2[j] == fs2[j] by {
            assert(out2[j] == out[j + 1] && fs2[j] == fs[j + 1]);
        };
        assert(out2 =~= fs2);
    }
}

proof fn lemma_lookup_push(
    fs: Seq<(String, Vec<u8>)>,
    k: Seq<char>,
    b: Seq<u8>,
    out: Seq<(String, Vec<u8>)>,
)
    requires
        forall|j: int| 0 <= j < fs.len() ==> #[trigger] fs[j].0@ != k,
        out.len() == fs.len() + 1,
        out[fs.len() as int].0@ == k,
        out[fs.len() as int].1@ == b,
        forall|j: int| 0 <= j < fs.len() ==> #[trigger] out[j] == fs[j],
    ensures
        file_lookup(out, k) == Some(b),
        forall|p: Seq<char>| p != k ==> #[trigger] file_lookup(out, p) == file_lookup(fs, p),
    decreases fs.len(),
{
    if fs.len() > 0 {
        let fs2 = fs.drop_first();
        let out2 = out.drop_first();
        assert(out[0] == fs[0]);
        assert forall|j: int| 0 <= j < fs2.len() implies #[trigger] fs2[j].0@ != k by {
            assert(fs2[j] == fs[j + 1]);
        };
        assert forall|j: int| 0 <= j < fs2.len() implies #[trigger] out2[j] == fs2[j] by {
            assert(out2[j] == out[j + 1] && fs2[j] == fs[j + 1]);
        };
        assert(out2[fs2.len() as int] == out[fs.len() as int]);
        lemma_lookup_push(fs2, k, b, out2);
        assert forall|p: Seq<char>| p != k implies #[trigger] file_lookup(out, p) == file_lookup(
            fs,
            p,
        ) by {
            if fs[0].0@ != p {
                assert(file_lookup(out2, p) == file_lookup(fs2, p));
            }
        };
    } else {
        let out2 = out.drop_first();
        assert(out2.len() == 0);
        assert forall|p: Seq<char>| p != k implies #[trigger] file_lookup(out, p) == file_lookup(
            fs,
            p,
        ) by {
            assert(file_lookup(out2, p) is None);
        };
    }
}

} // verus!
