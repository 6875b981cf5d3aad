//! Chart digests, memoised by path.
//!
//! Chart files are taken to stay unchanged for the length of a run, so a
//! stored digest is never invalidated. A hit needs no file contents at all:
//! `lookup` takes only the key.
use vstd::prelude::*;

verus! {

/// The lowercase hexadecimal SHA-1 digest of `data`.
pub uninterp spec fn sha1_hex(data: Seq<u8>) -> Seq<char>;

pub open spec fn is_lower_hex(c: char) -> bool {
    ('0' <= c && c <= '9') || ('a' <= c && c <= 'f')
}

/// Forty lowercase hexadecimal digits.
pub open spec fn is_sha1_text(s: Seq<char>) -> bool {
    s.len() == 40 && forall|i: int| 0 <= i < s.len() ==> is_lower_hex(#[trigger] s[i])
}

/// Relies on `sha1::Sha1` (`new`, `update`, `digest`) and on the `Display`
/// of its `Digest`: the text depends on the bytes alone and is the five
/// state words in eight lowercase hex digits each (`{:08x}`).
#[verifier::external_body]
fn sha1_text(data: &Vec<u8>) -> (r: String)
    ensures
        r@ == sha1_hex(data@),
        is_sha1_text(r@),
{
    let mut hasher = sha1::Sha1::new();
    hasher.update(data.as_slice());
    hasher.digest().to_string()
}

/// The digest of a chart file's bytes.
pub fn chart_digest(contents: &Vec<u8>) -> (r: String)
    ensures
        r@ == sha1_hex(contents@),
        is_sha1_text(r@),
{
    sha1_text(contents)
}

/// The map that stored pairs make, a later pair overriding an earlier one.
pub open spec fn pairs_map(keys: Seq<Seq<char>>, vals: Seq<Seq<char>>) -> Map<Seq<char>, Seq<char>>
    decreases keys.len(),
{
    if keys.len() == 0 || vals.len() == 0 {
        Map::empty()
    } else {
        pairs_map(keys.drop_last(), vals.drop_last()).insert(keys.last(), vals.last())
    }
}

pub open spec fn strings_view(s: Seq<String>) -> Seq<Seq<char>> {
    s.map_values(|x: String| x@)
}

proof fn lemma_pairs_map_prefix(keys: Seq<Seq<char>>, vals: Seq<Seq<char>>, i: int, k: Seq<char>)
    requires
        keys.len() == vals.len(),
        0 <= i <= keys.len(),
        forall|j: int| i <= j < keys.len() ==> keys[j] != k,
    ensures
        pairs_map(keys, vals).contains_key(k) == pairs_map(keys.subrange(0, i), vals.subrange(0, i)).contains_key(k),
        pairs_map(keys, vals).contains_key(k) ==> pairs_map(keys, vals)[k] == pairs_map(
            keys.subrange(0, i),
            vals.subrange(0, i),
        )[k],
    decreases keys.len() - i,
{
    if i == keys.len() {
        assert(keys.subrange(0, i) =~= keys);
        assert(vals.subrange(0, i) =~= vals);
    } else {
        let kd = keys.drop_last();
        let vd = vals.drop_last();
        assert(kd.subrange(0, i) =~= keys.subrange(0, i));
        assert(vd.subrange(0, i) =~= vals.subrange(0, i));
        lemma_pairs_map_prefix(kd, vd, i, k);
    }
}

/// Digests of chart files, keyed by the path's text.
pub struct HashCache {
    keys: Vec<String>,
    digests: Vec<String>,
}

impl HashCache {
    pub closed spec fn view(&self) -> Map<Seq<char>, Seq<char>> {
        pairs_map(strings_view(self.keys@), strings_view(self.digests@))
    }

    pub closed spec fn wf(&self) -> bool {
        self.keys@.len() == self.digests@.len()
    }

    /// An empty cache.
    pub fn new() -> (r: HashCache)
        ensures
            r.wf(),
            r@ == Map::<Seq<char>, Seq<char>>::empty(),
    {
        HashCache { keys: Vec::new(), digests: Vec::new() }
    }

    /// The stored digest for `key`, if any. Reads nothing but the cache.
    pub fn lookup(&self, key: &String) -> (r: Option<String>)
        requires
            self.wf(),
        ensures
            match r {
                Some(d) => self@.contains_key(key@) && d@ == self@[key@],
                None => !self@.contains_key(key@),
            },
    {
        let ghost ks = strings_view(self.keys@);
        let ghost vs = strings_view(self.digests@);
        let mut i: usize = self.keys.len();
        proof {
            lemma_pairs_map_prefix(ks, vs, i as int, key@);
        }
        while i > 0
            invariant
                i <= self.keys@.len() == self.digests@.len(),
                ks == strings_view(self.keys@),
                vs == strings_view(self.digests@),
                forall|j: int| i <= j < ks.len() ==> ks[j] != key@,
            decreases i,
        {
            if self.keys[i - 1] == *key {
                proof {
                    lemma_pairs_map_prefix(ks, vs, i as int, key@);
                    assert(ks.subrange(0, i as int).drop_last() =~= ks.subrange(0, i - 1));
                    assert(vs.subrange(0, i as int).drop_last() =~= vs.subrange(0, i - 1));
                }
                return Some(self.digests[i - 1].clone());
            }
            i = i - 1;
        }
        proof {
            lemma_pairs_map_prefix(ks, vs, 0, key@);
        }
        None
    }

    /// Stores `digest` for `key`, which has none yet: a stored digest is
    /// never replaced.
    pub fn insert(&mut self, key: String, digest: String)
        requires
            old(self).wf(),
            !old(self)@.contains_key(key@),
        ensures
            final(self).wf(),
            final(self)@ == old(self)@.insert(key@, digest@),
            old(self)@.submap_of(final(self)@),
    {
        self.keys.push(key);
        self.digests.push(digest);
        proof {
            let ks = strings_view(self.keys@);
            let vs = strings_view(self.digests@);
            assert(ks.drop_last() =~= strings_view(old(self).keys@));
            assert(vs.drop_last() =~= strings_view(old(self).digests@));
        }
    }

    /// Digests the bytes of the chart file at `key`, on a miss, and stores
    /// the result.
    pub fn digest_and_store(&mut self, key: &String, contents: &Vec<u8>) -> (r: String)
        requires
            old(self).wf(),
            !old(self)@.contains_key(key@),
        ensures
            final(self).wf(),
            r@ == sha1_hex(contents@),
            is_sha1_text(r@),
            final(self)@ == old(self)@.insert(key@, r@),
            old(self)@.submap_of(final(self)@),
    {
        let d = chart_digest(contents);
        self.insert(key.clone(), d.clone());
        d
    }

    /// The digest of the chart file at `key`: the stored one on a hit, which
    /// needs no file contents; on a miss the digest of `contents`, stored, or
    /// `None` where the contents were not given (the caller reads the file
    /// and asks again).
    pub fn digest_for(&mut self, key: &String, contents: Option<&Vec<u8>>) -> (r: Option<String>)
        requires
            old(self).wf(),
        ensures
            final(self).wf(),
            old(self)@.submap_of(final(self)@),
            old(self)@.contains_key(key@) ==> (r matches Some(d) && d@ == old(self)@[key@])
                && final(self)@ == old(self)@,
            !old(self)@.contains_key(key@) && contents is None ==> r is None && final(self)@
                == old(self)@,
            !old(self)@.contains_key(key@) && contents is Some ==> (r matches Some(d) && d@
                == sha1_hex(contents->Some_0@) && is_sha1_text(d@) && final(self)@ == old(
                self,
            )@.insert(key@, d@)),
    {
        match self.lookup(key) {
            Some(d) => Some(d),
            None => match contents {
                Some(bytes) => Some(self.digest_and_store(key, bytes)),
                None => None,
            },
        }
    }
}

/// A digest once stored stays: every store keeps all earlier entries, so a
/// path found in an earlier state of the cache is found, with the same
/// digest, in every later one; and a lookup reads the cache alone, so
/// repeated lookups of one path give one digest.
pub proof fn lemma_stored_digest_kept(earlier: HashCache, later: HashCache, path: Seq<char>)
    requires
        earlier@.submap_of(later@),
        earlier@.contains_key(path),
    ensures
        later@.contains_key(path),
        later@[path] == earlier@[path],
{
    let e = earlier@;
    let l = later@;
    assert(e.dom().contains(path) ==> l.dom().contains(path) && e[path] == l[path]);
}

} // verus!
