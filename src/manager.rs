//! The request surface: configuration, the `job_names` request metadata,
//! the registry of executors, and the gathering of dead jobs.
use vstd::prelude::*;

use crate::executor::{job_views, Executor};
use crate::job::Job;
use crate::worker::{contains_id, id_seq};

verus! {

/// Retry cap used when the configuration names none.
pub const DEFAULT_MAX_RETRY: u8 = 30;

/// The separator of the names in the `job_names` metadata.
pub const NAME_SEPARATOR: u8 = 59;

/// Broker configuration.
#[derive(Clone, Debug)]
pub struct Config {
    /// Socket address to bind.
    pub addr: String,
    /// Attempts allowed per job.
    pub max_retry: u8,
}

impl Config {
    pub fn new(addr: String, max_retry: u8) -> (r: Config)
        ensures
            r.addr == addr,
            r.max_retry == max_retry,
    {
        Config { addr, max_retry }
    }
}

/// Why a request was refused as an invalid argument.
#[derive(Clone, Copy, Debug, PartialEq, Eq, Structural)]
pub enum RequestError {
    /// The request carries no `job_names` metadata.
    MissingJobNames,
    /// The `job_names` metadata holds a byte that is not visible ASCII.
    InvalidJobNames,
}

/// A byte of a readable metadata value: visible ASCII or a tab.
pub open spec fn is_visible_ascii(b: u8) -> bool {
    (32 <= b && b < 127) || b == 9
}

/// The text of `b` cut at every `;`: `n` separators give `n + 1` names,
/// empty ones included.
pub open spec fn split_names(b: Seq<u8>) -> Seq<Seq<char>>
    decreases b.len(),
{
    if b.len() == 0 {
        seq![Seq::<char>::empty()]
    } else {
        let init = split_names(b.drop_last());
        if b.last() == NAME_SEPARATOR {
            init.push(Seq::<char>::empty())
        } else {
            init.update(init.len() - 1, init.last().push(b.last() as char))
        }
    }
}

proof fn lemma_split_names_nonempty(b: Seq<u8>)
    ensures
        split_names(b).len() >= 1,
    decreases b.len(),
{
    if b.len() > 0 {
        lemma_split_names_nonempty(b.drop_last());
    }
}

/// What a request's `job_names` metadata (`None` when absent) stands for.
pub open spec fn job_names_of(value: Option<Seq<u8>>) -> Result<Seq<Seq<char>>, RequestError> {
    match value {
        None => Err(RequestError::MissingJobNames),
        Some(b) => if (forall|i: int| 0 <= i < b.len() ==> is_visible_ascii(#[trigger] b[i])) {
            Ok(split_names(b))
        } else {
            Err(RequestError::InvalidJobNames)
        },
    }
}

/// The bytes of a metadata value, if present.
pub open spec fn bytes_of(value: Option<&[u8]>) -> Option<Seq<u8>> {
    match value {
        None => None,
        Some(b) => Some(b@),
    }
}

/// Relies on `String::push`: appends the character.
#[verifier::external_body]
fn push_char(s: &mut String, c: char)
    ensures
        final(s)@ == old(s)@.push(c),
{
    s.push(c)
}

/// Reads the `job_names` metadata of a request, given as its raw bytes or
/// `None` when absent: the names separated by `;`.
pub fn parse_job_names(value: Option<&[u8]>) -> (r: Result<Vec<String>, RequestError>)
    ensures
        value is None ==> r == Err::<Vec<String>, RequestError>(RequestError::MissingJobNames),
        job_names_of(bytes_of(value)) matches Ok(names) ==> r matches Ok(v) && id_seq(v@) == names,
        job_names_of(bytes_of(value)) matches Err(e) ==> r == Err::<Vec<String>, RequestError>(e),
{
    let b = match value {
        None => {
            return Err(RequestError::MissingJobNames);
        },
        Some(b) => b,
    };
    let mut names: Vec<String> = Vec::new();
    let mut current = String::new();
    let mut i: usize = 0;
    while i < b.len()
        invariant
            bytes_of(value) == Some(b@),
            i <= b@.len(),
            forall|k: int| 0 <= k < i ==> is_visible_ascii(#[trigger] b@[k]),
            split_names(b@.take(i as int)) == id_seq(names@).push(current@),
        decreases b@.len() - i,
    {
        let c = b[i];
        proof {
            assert(b@.take(i + 1).drop_last() =~= b@.take(i as int));
            lemma_split_names_nonempty(b@.take(i as int));
        }
        if !((32 <= c && c < 127) || c == 9) {
            assert(!is_visible_ascii(b@[i as int]));
            return Err(RequestError::InvalidJobNames);
        }
        if c == NAME_SEPARATOR {
            let done = current;
            current = String::new();
            proof {
                assert(id_seq(names@.push(done)) =~= id_seq(names@).push(done@));
            }
            names.push(done);
            assert(split_names(b@.take(i + 1)) =~= id_seq(names@).push(current@));
        } else {
            push_char(&mut current, c as char);
            assert(split_names(b@.take(i + 1)) =~= id_seq(names@).push(current@));
        }
        i += 1;
    }
    assert(b@.take(b@.len() as int) =~= b@);
    proof {
        assert(id_seq(names@.push(current)) =~= id_seq(names@).push(current@));
    }
    names.push(current);
    Ok(names)
}

/// The names of `names` that neither `known` nor an earlier name of
/// `names` holds, in order.
pub open spec fn added_names(known: Seq<Seq<char>>, names: Seq<Seq<char>>) -> Seq<Seq<char>>
    decreases names.len(),
{
    if names.len() == 0 {
        Seq::<Seq<char>>::empty()
    } else {
        let prev = added_names(known, names.drop_last());
        if (known + prev).contains(names.last()) {
            prev
        } else {
            prev.push(names.last())
        }
    }
}

/// Owns the registry of executors, one per job name.
#[derive(Debug)]
pub struct Manager {
    pub exec_spawner: Executor,
    /// The job names that have an executor, in order of creation.
    pub job_names: Vec<String>,
}

impl Manager {
    /// A manager with no executor yet.
    pub fn new(config: Config) -> (r: Manager)
        ensures
            r.exec_spawner.max_retry == config.max_retry,
            r.job_names@.len() == 0,
    {
        Manager { exec_spawner: Executor::new(config.max_retry), job_names: Vec::new() }
    }

    /// Gets or creates the executors of `names`: returns the names whose
    /// executor is to be created now, each once.  Executors are never
    /// removed: the registry only grows.
    pub fn open_executors(&mut self, names: &Vec<String>) -> (created: Vec<String>)
        ensures
            final(self).exec_spawner == old(self).exec_spawner,
            id_seq(created@) == added_names(id_seq(old(self).job_names@), id_seq(names@)),
            id_seq(final(self).job_names@) == id_seq(old(self).job_names@) + id_seq(created@),
    {
        let ghost known = id_seq(self.job_names@);
        let mut created: Vec<String> = Vec::new();
        let mut i: usize = 0;
        while i < names.len()
            invariant
                i <= names@.len(),
                self.exec_spawner == old(self).exec_spawner,
                known == id_seq(old(self).job_names@),
                id_seq(created@) == added_names(known, id_seq(names@).take(i as int)),
                id_seq(self.job_names@) == known + id_seq(created@),
            decreases names@.len() - i,
        {
            proof {
                assert(id_seq(names@).take(i + 1).drop_last() =~= id_seq(names@).take(i as int));
                assert(id_seq(names@).take(i + 1).last() == names@[i as int]@);
            }
            if !contains_id(&self.job_names, &names[i]) {
                let n = names[i].clone();
                let m = names[i].clone();
                proof {
                    assert(id_seq(created@.push(n)) =~= id_seq(created@).push(n@));
                    assert(id_seq(self.job_names@.push(m)) =~= id_seq(self.job_names@).push(m@));
                }
                created.push(n);
                self.job_names.push(m);
            }
            i += 1;
        }
        assert(id_seq(names@).take(names@.len() as int) =~= id_seq(names@));
        created
    }
}

/// The dead jobs of all executors, one reply after another.
pub fn collect_dead_jobs(replies: Vec<Vec<Job>>) -> (r: Vec<Job>)
    ensures
        job_views(r@) == replies@.map_values(|v: Vec<Job>| job_views(v@)).flatten(),
{
    let mut out: Vec<Job> = Vec::new();
    let mut i: usize = 0;
    while i < replies.len()
        invariant
            i <= replies@.len(),
            job_views(out@) == replies@.take(i as int).map_values(
                |v: Vec<Job>| job_views(v@),
            ).flatten(),
        decreases replies@.len() - i,
    {
        let mut k: usize = 0;
        let ghost before = out@;
        while k < replies[i].len()
            invariant
                i < replies@.len(),
                k <= replies@[i as int]@.len(),
                job_views(out@) == job_views(before) + job_views(replies@[i as int]@.take(k as int)),
            decreases replies@[i as int]@.len() - k,
        {
            let j = replies[i][k].duplicate();
            proof {
                assert(job_views(out@.push(j)) =~= job_views(out@).push(j@));
                assert(job_views(replies@[i as int]@.take(k + 1)) =~= job_views(
                    replies@[i as int]@.take(k as int),
                ).push(j@));
            }
            out.push(j);
            k += 1;
        }
        proof {
            let f = |v: Vec<Job>| job_views(v@);
            assert(replies@[i as int]@.take(replies@[i as int]@.len() as int) =~= replies@[i as int]@);
            assert(replies@.take(i + 1).map_values(f) =~= replies@.take(i as int).map_values(f).push(
                f(replies@[i as int]),
            ));
            replies@.take(i as int).map_values(f).lemma_flatten_push(f(replies@[i as int]));
        }
        i += 1;
    }
    assert(replies@.take(replies@.len() as int) =~= replies@);
    out
}

} // verus!
