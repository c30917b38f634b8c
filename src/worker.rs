//! Worker handles and the sets of ids that the executor keeps.
use vstd::prelude::*;

verus! {

/// Length of a freshly generated worker id.
pub const WORKER_ID_LEN: usize = 21;

/// The characters of a generated id: ASCII letters, digits, `_` and `-`.
pub open spec fn is_id_char(c: char) -> bool {
    c == '_' || c == '-' || ('0' <= c && c <= '9') || ('a' <= c && c <= 'z') || ('A' <= c
        && c <= 'Z')
}

/// Relies on `nanoid::format` with `nanoid::rngs::default` and
/// `nanoid::alphabet::SAFE`: `size` random characters of that alphabet (a
/// zero size would never return).
#[verifier::external_body]
fn generate_id(size: usize) -> (r: String)
    requires
        size > 0,
    ensures
        r@.len() == size,
        forall|i: int| 0 <= i < r@.len() ==> is_id_char(#[trigger] r@[i]),
{
    nanoid::format(nanoid::rngs::default, &nanoid::alphabet::SAFE, size)
}

/// A consumer as the broker sees it: an id given by the broker and the
/// endpoint through which jobs reach the consumer.
#[derive(Clone, Debug)]
pub struct Worker<E> {
    pub id: String,
    pub endpoint: E,
}

impl<E> Worker<E> {
    /// A worker with the given id.
    pub fn new(id: String, endpoint: E) -> (r: Worker<E>)
        ensures
            r.id == id,
            r.endpoint == endpoint,
    {
        Worker { id, endpoint }
    }

    /// A worker for a consumer that has just joined, under a fresh random id.
    pub fn hire(endpoint: E) -> (r: Worker<E>)
        ensures
            r.id@.len() == WORKER_ID_LEN,
            forall|i: int| 0 <= i < r.id@.len() ==> is_id_char(#[trigger] r.id@[i]),
            r.endpoint == endpoint,
    {
        Worker { id: generate_id(WORKER_ID_LEN), endpoint }
    }
}

/// The ids held in `v`, as character sequences.
pub open spec fn id_seq(v: Seq<String>) -> Seq<Seq<char>> {
    v.map_values(|s: String| s@)
}

/// Holds of every id but `id`.
pub open spec fn other_than(id: Seq<char>) -> spec_fn(Seq<char>) -> bool {
    |s: Seq<char>| s != id
}

/// Whether `v` holds `id`.
pub fn contains_id(v: &Vec<String>, id: &String) -> (r: bool)
    ensures
        r == id_seq(v@).contains(id@),
{
    let mut i: usize = 0;
    while i < v.len()
        invariant
            i <= v@.len(),
            forall|k: int| 0 <= k < i ==> v@[k]@ != id@,
        decreases v@.len() - i,
    {
        if v[i] == *id {
            assert(id_seq(v@)[i as int] == id@);
            return true;
        }
        i += 1;
    }
    assert(!id_seq(v@).contains(id@)) by {
        if id_seq(v@).contains(id@) {
            let k = choose|k: int| 0 <= k < id_seq(v@).len() && id_seq(v@)[k] == id@;
            assert(v@[k]@ == id@);
        }
    }
    false
}

/// The ids of `v` other than `id`, in their order.
pub fn without_id(v: &Vec<String>, id: &String) -> (r: Vec<String>)
    ensures
        id_seq(r@) == id_seq(v@).filter(other_than(id@)),
{
    let mut out: Vec<String> = Vec::new();
    let mut i: usize = 0;
    while i < v.len()
        invariant
            i <= v@.len(),
            id_seq(out@) == id_seq(v@).take(i as int).filter(other_than(id@)),
        decreases v@.len() - i,
    {
        proof {
            assert(id_seq(v@).take(i + 1) =~= id_seq(v@).take(i as int).push(v@[i as int]@));
            id_seq(v@).take(i as int).lemma_filter_push(v@[i as int]@, other_than(id@));
            assert(other_than(id@)(v@[i as int]@) == (v@[i as int]@ != id@));
        }
        if v[i] != *id {
            let s = v[i].clone();
            proof {
                assert(id_seq(out@.push(s)) =~= id_seq(out@).push(s@));
            }
            out.push(s);
        }
        i += 1;
    }
    assert(id_seq(v@).take(v@.len() as int) =~= id_seq(v@));
    out
}

/// Dropping ids keeps them distinct.
pub proof fn lemma_filter_keeps_distinct(s: Seq<Seq<char>>, p: spec_fn(Seq<char>) -> bool)
    requires
        s.no_duplicates(),
    ensures
        s.filter(p).no_duplicates(),
    decreases s.len(),
{
    reveal(Seq::filter);
    if s.len() > 0 {
        let init = s.drop_last();
        assert(init.no_duplicates());
        lemma_filter_keeps_distinct(init, p);
        if p(s.last()) {
            if init.filter(p).contains(s.last()) {
                init.lemma_filter_contains_rev(p, s.last());
                let k = choose|k: int| 0 <= k < init.len() && init[k] == s.last();
                assert(s[k] == s[s.len() - 1]);
            }
        }
    }
}

} // verus!
