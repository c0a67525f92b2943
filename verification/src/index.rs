//! The index store: the immutable mapping from fully-qualified tensor name
//! to descriptor built once from a container's header, together with the
//! container bytes and the fixed origin at which tensor payloads begin.

use vstd::prelude::*;
use crate::decode::{gguf_header_of, parse_gguf_header};
use crate::guard::{alignment_guard_ok, container_alignment_ok};
use crate::descriptor::{checked_elem_count, dims_positive, raw_wf, Descriptor};
use crate::error::Error;
use crate::scheme::{lemma_code_inverse, lemma_code_roundtrip, Scheme};

verus! {

/// The index built from one container: every tensor's descriptor keyed by
/// fully-qualified name, the container bytes, and the tensor-data origin.
/// Immutable after construction and shared read-only by every resolver
/// scope derived from the same load.
pub struct IndexData {
    pub entries: Vec<(String, Descriptor)>,
    pub data: Vec<u8>,
    pub tensor_data_offset: u64,
}

/// No two entries share a fully-qualified name.
pub open spec fn entries_unique(entries: Seq<(String, Descriptor)>) -> bool {
    forall|i: int, j: int|
        #![trigger entries[i], entries[j]]
        0 <= i < j < entries.len() ==> entries[i].0@ != entries[j].0@
}

/// The mapping from fully-qualified name to declared (shape, dtype code,
/// payload offset) denoted by an entry list.
pub open spec fn index_map(entries: Seq<(String, Descriptor)>) -> Map<
    Seq<char>,
    (Seq<usize>, u32, u64),
> {
    Map::new(
        |k: Seq<char>|
            exists|i: int| 0 <= i < entries.len() && (#[trigger] entries[i]).0@ == k,
        |k: Seq<char>|
            entries[choose|i: int| 0 <= i < entries.len() && (#[trigger] entries[i]).0@ == k].1@,
    )
}

/// An entry list with unique names puts each entry in the index map under
/// exactly its own name.
pub proof fn lemma_index_map_entry(entries: Seq<(String, Descriptor)>, i: int)
    requires
        entries_unique(entries),
        0 <= i < entries.len(),
    ensures
        index_map(entries).contains_key(entries[i].0@),
        index_map(entries)[entries[i].0@] == entries[i].1@,
{
    let k = entries[i].0@;
    assert(index_map(entries).contains_key(k)) by {
        assert(0 <= i < entries.len() && (entries[i]).0@ == k);
    }
    let j = choose|n: int| 0 <= n < entries.len() && (#[trigger] entries[n]).0@ == k;
    if j != i {
        if j < i {
            assert(entries[j].0@ != entries[i].0@);
        } else {
            assert(entries[i].0@ != entries[j].0@);
        }
        assert(false);
    }
}

/// A name that no entry carries is absent from the index map.
pub proof fn lemma_index_map_absent(entries: Seq<(String, Descriptor)>, k: Seq<char>)
    requires
        forall|i: int| 0 <= i < entries.len() ==> (#[trigger] entries[i]).0@ != k,
    ensures
        !index_map(entries).contains_key(k),
{
}

/// Whether the bytes are a loadable container: the header parses and every
/// scanned entry is well formed.
pub open spec fn loadable(data: Seq<u8>) -> bool {
    &&& gguf_header_of(data) is Some
    &&& forall|k: Seq<char>|
        #![trigger gguf_header_of(data).unwrap().0.contains_key(k)]
        gguf_header_of(data).unwrap().0.contains_key(k) ==> raw_wf(
            gguf_header_of(data).unwrap().0[k],
        )
}

impl IndexData {
    /// The store's mapping from fully-qualified name to declared
    /// (shape, dtype code, payload offset).
    pub open spec fn index(&self) -> Map<Seq<char>, (Seq<usize>, u32, u64)> {
        index_map(self.entries@)
    }

    /// A well-formed store: entry names are unique and every descriptor is
    /// well formed.
    pub open spec fn wf(&self) -> bool {
        &&& entries_unique(self.entries@)
        &&& forall|i: int|
            0 <= i < self.entries@.len() ==> (#[trigger] self.entries@[i]).1.wf()
    }

    /// Scans the container header and builds the index store, validating
    /// every descriptor.  Fails exactly when the metadata guard rejects
    /// the bytes, the header cannot be parsed, or some scanned entry is
    /// malformed.
    pub fn build(data: Vec<u8>) -> (r: Result<IndexData, Error>)
        ensures
            r is Ok <==> alignment_guard_ok(data@) && loadable(data@),
            r matches Ok(ix) ==> {
                &&& ix.wf()
                &&& ix.index() == gguf_header_of(data@).unwrap().0
                &&& ix.data@ == data@
                &&& ix.tensor_data_offset == gguf_header_of(data@).unwrap().1
            },
            r matches Err(e) ==> e is ContainerFormat,
    {
        if !container_alignment_ok(&data) {
            return Err(Error::ContainerFormat);
        }
        let parsed = match parse_gguf_header(&data) {
            None => {
                return Err(Error::ContainerFormat);
            },
            Some(p) => p,
        };
        let (mut raw, tensor_data_offset) = parsed;
        let ghost orig = raw@;
        let ghost h = gguf_header_of(data@).unwrap();
        let mut entries: Vec<(String, Descriptor)> = Vec::new();
        proof {
            assert(orig.take(orig.len() as int) =~= orig);
        }
        while raw.len() > 0
            invariant
                entries@.len() + raw@.len() == orig.len(),
                raw@ == orig.take(raw@.len() as int),
                forall|j: int|
                    #![trigger entries@[j]]
                    0 <= j < entries@.len() ==> {
                        &&& entries@[j].0 == orig[orig.len() - 1 - j].0
                        &&& entries@[j].1@ == orig[orig.len() - 1 - j].1@
                        &&& entries@[j].1.wf()
                    },
                forall|i: int|
                    #![trigger orig[i]]
                    0 <= i < orig.len() ==> h.0.contains_key(orig[i].0@) && h.0[orig[i].0@]
                        == orig[i].1@,
                forall|i: int, j: int|
                    #![trigger orig[i], orig[j]]
                    0 <= i < j < orig.len() ==> orig[i].0@ != orig[j].0@,
                forall|k: Seq<char>|
                    #![trigger h.0.contains_key(k)]
                    h.0.contains_key(k) ==> exists|i: int|
                        0 <= i < orig.len() && (#[trigger] orig[i]).0@ == k,
                gguf_header_of(data@) is Some,
                h == gguf_header_of(data@).unwrap(),
            decreases raw@.len(),
        {
            let ghost m = raw@.len() as int;
            let (name, info) = raw.pop().unwrap();
            proof {
                assert(orig.take(m).drop_last() =~= orig.take(m - 1));
                assert(orig.take(m).last() == orig[m - 1]);
                assert(h.0.contains_key(orig[m - 1].0@));
                assert(h.0[orig[m - 1].0@] == info@);
            }
            if !dims_positive(&info.dims) {
                proof {
                    assert(!raw_wf(h.0[orig[m - 1].0@]));
                }
                return Err(Error::ContainerFormat);
            }
            if checked_elem_count(&info.dims).is_none() {
                proof {
                    assert(!raw_wf(h.0[orig[m - 1].0@]));
                }
                return Err(Error::ContainerFormat);
            }
            let scheme = match Scheme::from_code(info.code) {
                None => {
                    proof {
                        assert(!raw_wf(h.0[orig[m - 1].0@]));
                    }
                    return Err(Error::ContainerFormat);
                },
                Some(s) => s,
            };
            proof {
                lemma_code_inverse(info.code);
            }
            let descriptor = Descriptor {
                shape: info.dims,
                scheme,
                offset: info.offset,
                dtype: info.dtype,
            };
            entries.push((name, descriptor));
        }
        let ghost n = orig.len() as int;
        proof {
            assert(entries@.len() == n);
            assert forall|a: int, b: int|
                0 <= a < b < entries@.len() implies (#[trigger] entries@[a]).0@ != (
            #[trigger] entries@[b]).0@ by {
                let ia = n - 1 - a;
                let ib = n - 1 - b;
                assert(orig[ib].0@ != orig[ia].0@);
            }
            assert forall|k: Seq<char>| #[trigger]
                h.0.contains_key(k) implies index_map(entries@).contains_key(k) && index_map(
                entries@,
            )[k] == h.0[k] && raw_wf(h.0[k]) by {
                let i = choose|i: int| 0 <= i < orig.len() && (#[trigger] orig[i]).0@ == k;
                let j = n - 1 - i;
                assert(entries@[j].0@ == k);
                assert(entries@[j].1@ == orig[i].1@);
                lemma_index_map_entry(entries@, j);
                lemma_code_roundtrip(entries@[j].1.scheme);
            }
            assert forall|k: Seq<char>| #[trigger]
                index_map(entries@).contains_key(k) implies h.0.contains_key(k) by {
                let j = choose|j: int| 0 <= j < entries@.len() && (#[trigger] entries@[j]).0@ == k;
                let i = n - 1 - j;
                assert(orig[i].0@ == k);
            }
            assert(index_map(entries@) =~= h.0);
        }
        Ok(IndexData { entries, data, tensor_data_offset })
    }

    /// Looks a fully-qualified name up in the store.
    pub fn find<'a>(&'a self, name: &String) -> (r: Option<&'a Descriptor>)
        requires
            entries_unique(self.entries@),
        ensures
            r matches Some(d) ==> {
                &&& self.index().contains_key(name@)
                &&& self.index()[name@] == d@
                &&& exists|i: int|
                    0 <= i < self.entries@.len() && (#[trigger] self.entries@[i]).1 == *d
            },
            r is None ==> !self.index().contains_key(name@),
    {
        let n = self.entries.len();
        for i in 0..n
            invariant
                n == self.entries@.len(),
                entries_unique(self.entries@),
                forall|j: int| 0 <= j < i ==> (#[trigger] self.entries@[j]).0@ != name@,
        {
            let e = &self.entries[i];
            if e.0.eq(name) {
                proof {
                    lemma_index_map_entry(self.entries@, i as int);
                }
                return Some(&e.1);
            }
        }
        proof {
            lemma_index_map_absent(self.entries@, name@);
        }
        None
    }
}

} // verus!
