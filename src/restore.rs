use vstd::prelude::*;
use crate::archive::{resolution, views, zip_data_in, zip_names_in, zip_opens, Archive};
use crate::domain::{domain_name, join, join_names, Domain};
use crate::snapshot::ImportError;
use crate::text::{decimal, decimal_string};

verus! {

/// What a restore found in the archive for one requested domain name.
#[derive(Debug)]
pub enum Task {
    /// The name is not in the registry; the archive was not searched.
    Unknown(String),
    /// No entry of the archive stands for the domain.
    NotFound(Domain),
    /// The domain's entry was found but could not be read.
    Unreadable(Domain),
    /// The bytes of the domain's entry: a database file to import.
    Found(Domain, Vec<u8>),
}

/// Whether `t` is what a restore owes for the requested name `name` in an
/// archive with entry names `names` and entry contents `data`: a domain
/// whose entry reads is `Found` with the entry's bytes, one whose entry does
/// not read is `Unreadable`.
pub open spec fn task_for(
    name: Seq<char>,
    names: Seq<Seq<char>>,
    data: Seq<Option<Seq<u8>>>,
    t: Task,
) -> bool {
    match t {
        Task::Unknown(s) => s@ == name && forall|d: Domain| domain_name(d) != name,
        Task::NotFound(d) => domain_name(d) == name && resolution(names, d) is None,
        Task::Unreadable(d) => {
            &&& domain_name(d) == name
            &&& resolution(names, d) is Some
            &&& data[resolution(names, d)->0] is None
        },
        Task::Found(d, bytes) => {
            &&& domain_name(d) == name
            &&& resolution(names, d) is Some
            &&& data[resolution(names, d)->0] == Some(bytes@)
        },
    }
}

/// How one requested domain ended.
#[derive(Clone, Debug)]
pub enum Outcome {
    /// Its rows were written and committed; the number of rows.
    Restored(usize),
    /// The archive holds no entry for it.
    NotFound,
    /// It was not restored, for the reason given.
    Failed(ImportError),
}

/// How one requested domain ended, under its requested name.
#[derive(Clone, Debug)]
pub struct DomainResult {
    pub name: String,
    pub outcome: Outcome,
}

/// What can stop a restore as a whole.
#[derive(Clone, Copy, Debug, PartialEq, Eq, Structural)]
pub enum RestoreError {
    /// The archive could not be opened; no domain was attempted.
    CorruptArchive,
    /// Not a single domain was restored.
    NoUsableDomains,
}

/// The account of a restore in which at least one domain was restored.
#[derive(Clone, Debug)]
pub struct RestoreReport {
    /// Each requested domain, in the order requested.
    pub results: Vec<DomainResult>,
    pub restored: usize,
    pub not_found: usize,
    pub failed: usize,
}

/// The number of restored domains among `s`.
pub open spec fn count_restored(s: Seq<DomainResult>) -> nat
    decreases s.len(),
{
    if s.len() == 0 {
        0
    } else {
        count_restored(s.drop_last()) + if s.last().outcome is Restored {
            1nat
        } else {
            0nat
        }
    }
}

/// The number of domains not found among `s`.
pub open spec fn count_not_found(s: Seq<DomainResult>) -> nat
    decreases s.len(),
{
    if s.len() == 0 {
        0
    } else {
        count_not_found(s.drop_last()) + if s.last().outcome is NotFound {
            1nat
        } else {
            0nat
        }
    }
}

/// The number of failed domains among `s`.
pub open spec fn count_failed(s: Seq<DomainResult>) -> nat
    decreases s.len(),
{
    if s.len() == 0 {
        0
    } else {
        count_failed(s.drop_last()) + if s.last().outcome is Failed {
            1nat
        } else {
            0nat
        }
    }
}

/// The names of the domains among `s` that were not found, in order.
pub open spec fn not_found_names(s: Seq<DomainResult>) -> Seq<Seq<char>>
    decreases s.len(),
{
    if s.len() == 0 {
        Seq::empty()
    } else if s.last().outcome is NotFound {
        not_found_names(s.drop_last()).push(s.last().name@)
    } else {
        not_found_names(s.drop_last())
    }
}

/// The names of the domains among `s` that failed, in order.
pub open spec fn failed_names(s: Seq<DomainResult>) -> Seq<Seq<char>>
    decreases s.len(),
{
    if s.len() == 0 {
        Seq::empty()
    } else if s.last().outcome is Failed {
        failed_names(s.drop_last()).push(s.last().name@)
    } else {
        failed_names(s.drop_last())
    }
}

/// The message that sums up a restore: restored out of requested, then the
/// domains that failed and those not found, when there are any.
pub open spec fn summary_text(s: Seq<DomainResult>) -> Seq<char> {
    let failed = failed_names(s);
    let missing = not_found_names(s);
    decimal(count_restored(s)) + "/"@ + decimal(s.len()) + " domains restored"@ + (if failed.len()
        > 0 {
        "; failed: "@ + join(failed)
    } else {
        Seq::empty()
    }) + (if missing.len() > 0 {
        "; not found: "@ + join(missing)
    } else {
        Seq::empty()
    })
}

/// Searches the archive for each requested domain name, in order, and reads
/// the entry of each domain it finds. A name outside the registry is not
/// searched for.
pub fn plan_domains(archive: &mut Archive, requested: &Vec<String>) -> (tasks: Vec<Task>)
    ensures
        final(archive)@ == old(archive)@,
        final(archive).data() == old(archive).data(),
        tasks@.len() == requested@.len(),
        forall|i: int|
            0 <= i < tasks@.len() ==> task_for(
                requested@[i]@,
                old(archive)@,
                old(archive).data(),
                #[trigger] tasks@[i],
            ),
{
    let ghost names = archive@;
    let ghost data = archive.data();
    let mut tasks: Vec<Task> = Vec::new();
    let mut i: usize = 0;
    while i < requested.len()
        invariant
            archive@ == names,
            archive.data() == data,
            i <= requested@.len(),
            tasks@.len() == i,
            forall|j: int|
                0 <= j < i ==> task_for(requested@[j]@, names, data, #[trigger] tasks@[j]),
        decreases requested@.len() - i,
    {
        let name = &requested[i];
        let task = match Domain::from_name(name.as_str()) {
            None => Task::Unknown(name.clone()),
            Some(d) => match archive.resolve(d) {
                None => Task::NotFound(d),
                Some(k) => match archive.read(k) {
                    Ok(bytes) => Task::Found(d, bytes),
                    Err(_) => Task::Unreadable(d),
                },
            },
        };
        tasks.push(task);
        i += 1;
    }
    tasks
}

/// Opens the archive held in `bytes` and searches it for each requested
/// domain name, in order; see [`plan_domains`]. Bytes that do not hold an
/// archive stop the restore before any domain is attempted.
pub fn plan_restore(bytes: Vec<u8>, requested: &Vec<String>) -> (r: Result<Vec<Task>, RestoreError>)
    ensures
        r is Ok <==> zip_opens(bytes@),
        r matches Err(e) ==> e == RestoreError::CorruptArchive,
        r matches Ok(tasks) ==> tasks@.len() == requested@.len() && forall|i: int|
            0 <= i < tasks@.len() ==> task_for(
                requested@[i]@,
                zip_names_in(bytes@),
                zip_data_in(bytes@),
                #[trigger] tasks@[i],
            ),
{
    match Archive::open(bytes) {
        Err(_) => Err(RestoreError::CorruptArchive),
        Ok(mut archive) => {
            let tasks = plan_domains(&mut archive, requested);
            Ok(tasks)
        },
    }
}

/// The name a task is about: the requested name outside the registry, else
/// the domain's name.
pub open spec fn task_name(t: Task) -> Seq<char> {
    match t {
        Task::Unknown(s) => s@,
        Task::NotFound(d) => domain_name(d),
        Task::Unreadable(d) => domain_name(d),
        Task::Found(d, _) => domain_name(d),
    }
}

/// How a task that needs no import ends: every task but `Found`.
pub open spec fn unimported_outcome(t: Task) -> Option<Outcome> {
    match t {
        Task::Unknown(_) => Some(Outcome::Failed(ImportError::UnknownDomain)),
        Task::NotFound(_) => Some(Outcome::NotFound),
        Task::Unreadable(_) => Some(Outcome::Failed(ImportError::Unreadable)),
        Task::Found(_, _) => None,
    }
}

/// How a found domain ends, given what importing its bytes gave.
pub open spec fn imported_outcome(imported: Result<usize, ImportError>) -> Outcome {
    match imported {
        Ok(n) => Outcome::Restored(n),
        Err(e) => Outcome::Failed(e),
    }
}

/// Records how a task that needs no import ended; there is none for a
/// `Found` task, whose bytes are still to be imported.
pub fn settle_unimported(task: &Task) -> (r: Option<DomainResult>)
    ensures
        r is None <==> task is Found,
        r matches Some(res) ==> res.name@ == task_name(*task) && Some(res.outcome)
            == unimported_outcome(*task),
{
    match task {
        Task::Unknown(s) => Some(
            DomainResult { name: s.clone(), outcome: Outcome::Failed(ImportError::UnknownDomain) },
        ),
        Task::NotFound(d) => Some(DomainResult { name: d.name(), outcome: Outcome::NotFound }),
        Task::Unreadable(d) => Some(
            DomainResult { name: d.name(), outcome: Outcome::Failed(ImportError::Unreadable) },
        ),
        Task::Found(_, _) => None,
    }
}

/// Records how the import of a found domain ended.
pub fn settle_imported(d: Domain, imported: Result<usize, ImportError>) -> (r: DomainResult)
    ensures
        r.name@ == domain_name(d),
        r.outcome == imported_outcome(imported),
{
    let outcome = match imported {
        Ok(n) => Outcome::Restored(n),
        Err(e) => Outcome::Failed(e),
    };
    DomainResult { name: d.name(), outcome }
}

proof fn lemma_counts_bounded(s: Seq<DomainResult>)
    ensures
        count_restored(s) + count_not_found(s) + count_failed(s) == s.len(),
    decreases s.len(),
{
    if s.len() > 0 {
        lemma_counts_bounded(s.drop_last());
    }
}

/// Concludes a restore from the result of each requested domain. It fails
/// as a whole exactly when no domain was restored; otherwise the report
/// keeps every result and counts them.
pub fn conclude(results: Vec<DomainResult>) -> (r: Result<RestoreReport, RestoreError>)
    ensures
        r is Err <==> count_restored(results@) == 0,
        r matches Err(e) ==> e == RestoreError::NoUsableDomains,
        r matches Ok(rep) ==> rep.results@ == results@ && rep.restored == count_restored(results@)
            && rep.not_found == count_not_found(results@) && rep.failed == count_failed(
            results@,
        ),
{
    let ghost s = results@;
    let mut restored: usize = 0;
    let mut not_found: usize = 0;
    let mut failed: usize = 0;
    let mut i: usize = 0;
    while i < results.len()
        invariant
            s == results@,
            i <= s.len(),
            restored == count_restored(s.subrange(0, i as int)),
            not_found == count_not_found(s.subrange(0, i as int)),
            failed == count_failed(s.subrange(0, i as int)),
        decreases s.len() - i,
    {
        proof {
            let next = s.subrange(0, i + 1);
            assert(next.drop_last() =~= s.subrange(0, i as int));
            lemma_counts_bounded(next);
        }
        match &results[i].outcome {
            Outcome::Restored(_) => restored += 1,
            Outcome::NotFound => not_found += 1,
            Outcome::Failed(_) => failed += 1,
        }
        i += 1;
    }
    assert(s.subrange(0, s.len() as int) =~= s);
    if restored == 0 {
        Err(RestoreError::NoUsableDomains)
    } else {
        Ok(RestoreReport { results, restored, not_found, failed })
    }
}

impl RestoreReport {
    /// The message that sums up the restore: how many of the requested
    /// domains were restored, then which failed and which were not found.
    pub fn summary(&self) -> (r: String)
        ensures
            r@ == summary_text(self.results@),
    {
        let ghost s = self.results@;
        let mut restored: usize = 0;
        let mut failed: Vec<String> = Vec::new();
        let mut missing: Vec<String> = Vec::new();
        let mut i: usize = 0;
        while i < self.results.len()
            invariant
                s == self.results@,
                i <= s.len(),
                restored == count_restored(s.subrange(0, i as int)),
                views(failed@) == failed_names(s.subrange(0, i as int)),
                views(missing@) == not_found_names(s.subrange(0, i as int)),
            decreases s.len() - i,
        {
            proof {
                let next = s.subrange(0, i + 1);
                assert(next.drop_last() =~= s.subrange(0, i as int));
                lemma_counts_bounded(next);
            }
            let ghost before_failed = failed@;
            let ghost before_missing = missing@;
            match &self.results[i].outcome {
                Outcome::Restored(_) => restored += 1,
                Outcome::NotFound => {
                    missing.push(self.results[i].name.clone());
                    assert(views(missing@) =~= views(before_missing).push(s[i as int].name@));
                },
                Outcome::Failed(_) => {
                    failed.push(self.results[i].name.clone());
                    assert(views(failed@) =~= views(before_failed).push(s[i as int].name@));
                },
            }
            i += 1;
        }
        assert(s.subrange(0, s.len() as int) =~= s);
        let mut r = decimal_string(restored);
        r.append("/");
        let total = decimal_string(self.results.len());
        r.append(total.as_str());
        r.append(" domains restored");
        if failed.len() > 0 {
            r.append("; failed: ");
            let list = join_names(&failed);
            r.append(list.as_str());
        }
        if missing.len() > 0 {
            r.append("; not found: ");
            let list = join_names(&missing);
            r.append(list.as_str());
        }
        r
    }
}

proof fn lemma_none_restored(s: Seq<DomainResult>)
    requires
        forall|i: int| 0 <= i < s.len() ==> !(#[trigger] s[i].outcome is Restored),
    ensures
        count_restored(s) == 0,
    decreases s.len(),
{
    if s.len() > 0 {
        lemma_none_restored(s.drop_last());
    }
}

/// When no entry of the archive stands for any domain, no requested domain
/// comes out restored, whatever was requested, so the restore fails as a
/// whole.
pub proof fn lemma_all_missing_is_fatal(
    requested: Seq<Seq<char>>,
    names: Seq<Seq<char>>,
    data: Seq<Option<Seq<u8>>>,
    tasks: Seq<Task>,
    results: Seq<DomainResult>,
)
    requires
        tasks.len() == requested.len(),
        results.len() == tasks.len(),
        forall|i: int|
            0 <= i < tasks.len() ==> task_for(requested[i], names, data, #[trigger] tasks[i]),
        forall|d: Domain| #[trigger] resolution(names, d) is None,
        forall|i: int|
            0 <= i < tasks.len() && !(tasks[i] is Found) ==> Some((#[trigger] results[i]).outcome)
                == unimported_outcome(tasks[i]),
    ensures
        count_restored(results) == 0,
{
    assert forall|i: int| 0 <= i < results.len() implies !(#[trigger] results[i].outcome is Restored) by {
        assert(task_for(requested[i], names, data, tasks[i]));
        match tasks[i] {
            Task::Found(d, _) => assert(resolution(names, d) is None),
            Task::Unreadable(d) => assert(resolution(names, d) is None),
            _ => {},
        }
    }
    lemma_none_restored(results);
}

} // verus!
