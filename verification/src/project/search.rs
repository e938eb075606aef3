//! Searching the files of a project.
use super::{Project, ProjectClientState, ProjectView};
use crate::buffer::Buffer;
use crate::event::{Effect, ProjectError, Reply, Server, SSH_PROJECT_ID};
use crate::ids::{BufferId, PayloadId, PeerId, ProjectEntryId};
use crate::seqs;
use crate::sort;
use crate::sort::stable_sort;
use crate::worktree::{Entry, Worktree, WorktreeStore};
use vstd::prelude::*;

verus! {

/// The most files that a search reports, but for the one with which it stops.
pub const MAX_SEARCH_RESULT_FILES: usize = 5_000;

/// The most places that a search reports, but for those of the file with which it stops.
pub const MAX_SEARCH_RESULT_RANGES: usize = 10_000;

/// A buffer that a search is to look through.
#[derive(Debug, PartialEq)]
pub struct QueriedBuffer {
    pub buffer: Buffer,
    /// Whether the path of its file is one of those that are searched.
    pub file_matches: bool,
}

/// What is searched for.
#[derive(Debug, PartialEq)]
pub struct SearchQuery {
    /// Whether only open buffers are searched.
    pub is_opened_only: bool,
    /// The buffers to look through, if they are given.
    pub buffers: Option<Vec<QueriedBuffer>>,
    pub include_ignored: bool,
}

/// Where the files come from that a search looks through.
#[derive(Debug, PartialEq)]
pub enum SearchSource {
    /// These buffers, in this order.
    Opened(Vec<BufferId>),
    /// The buffer store finds at most so many.
    Store { limit: usize },
    /// A server finds at most so many; what it creates is kept alive until
    /// `release_remotely_created_models` is called.
    Remote { server: Server, project_id: u64, limit: usize },
    /// Nowhere.
    Nowhere,
}

/// A path and whether it is that of a file, as paths are compared.
pub type ComparedPath = (String, bool);

/// Whether a comparison of paths decides a relation.
pub open spec fn decides_paths<F: Fn(&String, bool, &String, bool) -> bool>(
    less: F,
    lt: spec_fn(ComparedPath, ComparedPath) -> bool,
) -> bool {
    forall|a: String, a_file: bool, b: String, b_file: bool, r: bool| #[trigger]
        call_ensures(less, (&a, a_file, &b, b_file), r) ==> r == lt((a, a_file), (b, b_file))
}

/// Whether a comparison of paths can give an answer.
pub open spec fn can_answer<F: Fn(&String, bool, &String, bool) -> bool>(
    less: &F,
    a: ComparedPath,
    b: ComparedPath,
    answer: bool,
) -> bool {
    call_ensures(*less, (&a.0, a.1, &b.0, b.1), answer)
}

/// The order of the buffers of a search: first those without a file, by identifier, then the
/// others by path.
pub open spec fn candidate_order(lt: spec_fn(ComparedPath, ComparedPath) -> bool) -> spec_fn(
    QueriedBuffer,
    QueriedBuffer,
) -> bool {
    |a: QueriedBuffer, b: QueriedBuffer|
        match (a.buffer.file, b.buffer.file) {
            (None, None) => a.buffer.id.0 < b.buffer.id.0,
            (None, Some(_)) => true,
            (Some(_), None) => false,
            (Some(file_a), Some(file_b)) => lt((file_a.path, true), (file_b.path, true)),
        }
}

/// The order of entries.
pub open spec fn entry_order(lt: spec_fn(ComparedPath, ComparedPath) -> bool) -> spec_fn(
    Entry,
    Entry,
) -> bool {
    |a: Entry, b: Entry| lt((a.path, !a.is_dir), (b.path, !b.is_dir))
}

/// Whether a buffer is looked through: its file is one of those that are searched, and not
/// ignored, unless ignored files are searched too.
pub open spec fn is_candidate(
    store: WorktreeStore,
    include_ignored: bool,
    queried: QueriedBuffer,
) -> bool {
    match queried.buffer.file {
        Some(file) => queried.file_matches && (include_ignored || !(file.entry_id matches Some(id)
            && store.entry_with(id) matches Some(entry) && entry.is_ignored)),
        None => true,
    }
}

/// The identifiers of the buffers.
pub open spec fn queried_ids(list: Seq<QueriedBuffer>) -> Seq<BufferId> {
    list.map_values(|q: QueriedBuffer| q.buffer.id)
}

/// The buffers that a query gives.
pub open spec fn given(query: SearchQuery) -> Seq<QueriedBuffer> {
    match query.buffers {
        Some(buffers) => buffers@,
        None => Seq::empty(),
    }
}

impl ProjectView {
    /// The buffers that are looked through.
    pub open spec fn search_candidates(self, query: SearchQuery) -> Seq<QueriedBuffer> {
        given(query).filter(
            |q: QueriedBuffer| is_candidate(self.worktree_store, query.include_ignored, q),
        )
    }

    /// Where files that are not open are searched for.
    pub open spec fn search_source(self, limit: usize) -> SearchSource {
        if self.local() {
            SearchSource::Store { limit }
        } else if self.ssh_client is Some {
            SearchSource::Remote { server: Server::Ssh, project_id: SSH_PROJECT_ID, limit }
        } else {
            match self.shared_id() {
                Some(project_id) => SearchSource::Remote {
                    server: Server::Collab,
                    project_id,
                    limit,
                },
                None => SearchSource::Nowhere,
            }
        }
    }
}

proof fn lemma_candidate_order_orders(lt: spec_fn(ComparedPath, ComparedPath) -> bool)
    requires
        sort::orders(lt),
    ensures
        sort::orders(candidate_order(lt)),
{
    let order = candidate_order(lt);
    assert forall|a: QueriedBuffer, b: QueriedBuffer| #[trigger] order(a, b) implies !order(b, a) by {}
    assert forall|a: QueriedBuffer, b: QueriedBuffer, c: QueriedBuffer|
        !(#[trigger] order(a, b)) && !(#[trigger] order(b, c)) implies !order(a, c) by {
        if let (Some(file_a), Some(file_b)) = (a.buffer.file, b.buffer.file) {
            if let Some(file_c) = c.buffer.file {
                assert(!lt((file_a.path, true), (file_b.path, true)));
                assert(!lt((file_b.path, true), (file_c.path, true)));
            }
        }
    }
}

proof fn lemma_entry_order_orders(lt: spec_fn(ComparedPath, ComparedPath) -> bool)
    requires
        sort::orders(lt),
    ensures
        sort::orders(entry_order(lt)),
{
    let order = entry_order(lt);
    assert forall|a: Entry, b: Entry| #[trigger] order(a, b) implies !order(b, a) by {}
    assert forall|a: Entry, b: Entry, c: Entry|
        !(#[trigger] order(a, b)) && !(#[trigger] order(b, c)) implies !order(a, c) by {
        assert(!lt((a.path, !a.is_dir), (b.path, !b.is_dir)));
        assert(!lt((b.path, !b.is_dir), (c.path, !c.is_dir)));
    }
}

/// Sorts entries by path; `path_less` says whether one path, of a file or of a directory, comes
/// before another.
pub fn sort_worktree_entries<F: Fn(&String, bool, &String, bool) -> bool>(
    entries: &mut Vec<Entry>,
    path_less: F,
)
    requires
        forall|a: String, a_file: bool, b: String, b_file: bool| #[trigger]
            call_requires(path_less, (&a, a_file, &b, b_file)),
    ensures
        exists|from: Seq<int>| #[trigger]
            sort::rearranges(from, old(entries)@.len()) && sort::taken_from(
                old(entries)@,
                final(entries)@,
                from,
            ),
        forall|lt: spec_fn(ComparedPath, ComparedPath) -> bool| #[trigger]
            sort::orders(lt) && decides_paths(path_less, lt) ==> sort::stably_sorted(
                old(entries)@,
                final(entries)@,
                entry_order(lt),
            ),
{
    let less = |a: &Entry, b: &Entry| -> (r: bool)
        ensures
            can_answer(&path_less, (a.path, !a.is_dir), (b.path, !b.is_dir), r),
        { path_less(&a.path, a.is_file(), &b.path, b.is_file()) };
    let ghost before = entries@;
    let mut list: Vec<Entry> = Vec::new();
    list.append(entries);
    assert(list@ =~= before);
    let mut sorted = stable_sort(list, &less);
    proof {
        assert forall|lt: spec_fn(ComparedPath, ComparedPath) -> bool| #[trigger]
            sort::orders(lt) && decides_paths(path_less, lt) implies sort::stably_sorted(
            before,
            sorted@,
            entry_order(lt),
        ) by {
            lemma_entry_order_orders(lt);
            assert(sort::decides(less, entry_order(lt)));
        }
    }
    let ghost after = sorted@;
    entries.append(&mut sorted);
    assert(entries@ =~= after);
}

impl Project {
    fn candidates(&self, query: SearchQuery) -> (list: Vec<QueriedBuffer>)
        ensures
            list@ == self@.search_candidates(query),
    {
        let include_ignored = query.include_ignored;
        let ghost p = |q: QueriedBuffer| is_candidate(self@.worktree_store, include_ignored, q);
        let ghost all = given(query);
        let mut rest = match query.buffers {
            Some(buffers) => buffers,
            None => Vec::new(),
        };
        assert(rest@ =~= all);
        let mut list: Vec<QueriedBuffer> = Vec::new();
        let ghost mut n: int = 0;
        proof {
            reveal(Seq::filter);
            assert(all.take(0).filter(p) =~= Seq::<QueriedBuffer>::empty());
            assert(all.skip(0) =~= all);
        }
        while rest.len() > 0
            invariant
                p == (|q: QueriedBuffer|
                    is_candidate(self@.worktree_store, include_ignored, q)),
                0 <= n <= all.len(),
                rest@ == all.skip(n),
                list@ == all.take(n).filter(p),
            decreases rest.len(),
        {
            let queried = rest.remove(0);
            proof {
                assert(all.take(n).push(all[n]) =~= all.take(n + 1));
                seqs::lemma_filter_push(all.take(n), p, all[n]);
                assert(rest@ =~= all.skip(n + 1));
                n = n + 1;
            }
            if self.is_search_candidate(include_ignored, &queried) {
                list.push(queried);
            }
        }
        assert(all.take(n) =~= all);
        list
    }

    fn is_search_candidate(&self, include_ignored: bool, queried: &QueriedBuffer) -> (res: bool)
        ensures
            res == is_candidate(self@.worktree_store, include_ignored, *queried),
    {
        if let Some(file) = &queried.buffer.file {
            if !queried.file_matches {
                return false;
            }
            if let Some(id) = file.entry_id {
                if let Some(entry) = self.worktree_store.entry_for_id(id) {
                    if entry.is_ignored && !include_ignored {
                        return false;
                    }
                }
            }
        }
        true
    }

    /// The buffers of a query that are looked through, in the order in which they are;
    /// `path_less` says whether one path, of a file or of a directory, comes before another.
    pub fn sort_search_candidates<F: Fn(&String, bool, &String, bool) -> bool>(
        &self,
        query: SearchQuery,
        path_less: F,
    ) -> (ids: Vec<BufferId>)
        requires
            forall|a: String, a_file: bool, b: String, b_file: bool| #[trigger]
                call_requires(path_less, (&a, a_file, &b, b_file)),
        ensures
            exists|from: Seq<int>| #[trigger]
                sort::rearranges(from, self@.search_candidates(query).len()) && sort::taken_from(
                    queried_ids(self@.search_candidates(query)),
                    ids@,
                    from,
                ),
            forall|lt: spec_fn(ComparedPath, ComparedPath) -> bool| #[trigger]
                sort::orders(lt) && decides_paths(path_less, lt) ==> exists|
                    sorted: Seq<QueriedBuffer>,
                | #[trigger]
                    sort::stably_sorted(
                        self@.search_candidates(query),
                        sorted,
                        candidate_order(lt),
                    ) && ids@ == queried_ids(sorted),
    {
        let less = |a: &QueriedBuffer, b: &QueriedBuffer| -> (r: bool)
            ensures
                match (a.buffer.file, b.buffer.file) {
                    (None, None) => r == (a.buffer.id.0 < b.buffer.id.0),
                    (None, Some(_)) => r,
                    (Some(_), None) => !r,
                    (Some(file_a), Some(file_b)) => can_answer(
                        &path_less,
                        (file_a.path, true),
                        (file_b.path, true),
                        r,
                    ),
                },
            {
                match (&a.buffer.file, &b.buffer.file) {
                    (None, None) => a.buffer.id.0 < b.buffer.id.0,
                    (None, Some(_)) => true,
                    (Some(_), None) => false,
                    (Some(file_a), Some(file_b)) => path_less(
                        &file_a.path,
                        true,
                        &file_b.path,
                        true,
                    ),
                }
            };
        let list = self.candidates(query);
        let ghost before = list@;
        let sorted = stable_sort(list, &less);
        let mut ids: Vec<BufferId> = Vec::new();
        let mut i: usize = 0;
        while i < sorted.len()
            invariant
                i <= sorted.len(),
                ids@ == queried_ids(sorted@).take(i as int),
            decreases sorted.len() - i,
        {
            ids.push(sorted[i].buffer.id);
            i = i + 1;
            assert(ids@ =~= queried_ids(sorted@).take(i as int));
        }
        assert(ids@ =~= queried_ids(sorted@));
        proof {
            let from = choose|from: Seq<int>| #[trigger]
                sort::rearranges(from, before.len()) && sort::taken_from(before, sorted@, from);
            assert forall|k: int| 0 <= k < from.len() implies #[trigger] ids@[k] == queried_ids(
                before,
            )[from[k]] by {
                assert(sorted@[k] == before[from[k]]);
            }
            assert(sort::taken_from(queried_ids(before), ids@, from));
            assert forall|lt: spec_fn(ComparedPath, ComparedPath) -> bool| #[trigger]
                sort::orders(lt) && decides_paths(path_less, lt) implies exists|
                    s: Seq<QueriedBuffer>,
                | #[trigger]
                    sort::stably_sorted(before, s, candidate_order(lt)) && ids@ == queried_ids(
                        s,
                    ) by {
                lemma_candidate_order_orders(lt);
                assert(sort::decides(less, candidate_order(lt)));
                assert(sort::stably_sorted(before, sorted@, candidate_order(lt)));
            }
        }
        ids
    }

    /// Where files that are not open are searched for. What a server creates is kept alive until
    /// `release_remotely_created_models` is called.
    pub fn find_search_candidate_buffers(&mut self, limit: usize) -> (res: SearchSource)
        requires
            old(self).wf(),
            old(self)@.search_source(limit) is Remote ==> old(self)@.can_retain(),
        ensures
            final(self).wf(),
            res == old(self)@.search_source(limit),
            final(self)@ == (if res is Remote {
                old(self)@.after_retain()
            } else {
                old(self)@
            }),
    {
        if self.is_local() {
            SearchSource::Store { limit }
        } else {
            self.find_search_candidates_remote(limit)
        }
    }

    fn find_search_candidates_remote(&mut self, limit: usize) -> (res: SearchSource)
        requires
            old(self).wf(),
            old(self)@.search_source(limit) is Remote ==> old(self)@.can_retain(),
            !old(self)@.local(),
        ensures
            final(self).wf(),
            res == old(self)@.search_source(limit),
            final(self)@ == (if res is Remote {
                old(self)@.after_retain()
            } else {
                old(self)@
            }),
    {
        let source = if self.ssh_client.is_some() {
            SearchSource::Remote { server: Server::Ssh, project_id: SSH_PROJECT_ID, limit }
        } else if let Some(project_id) = self.remote_id() {
            SearchSource::Remote { server: Server::Collab, project_id, limit }
        } else {
            return SearchSource::Nowhere;
        };
        self.retain_remotely_created_models();
        source
    }

    /// Starts a search: open buffers are looked through in order, and otherwise files are searched
    /// for, one more than a search reports.
    pub fn search<F: Fn(&String, bool, &String, bool) -> bool>(
        &mut self,
        query: SearchQuery,
        path_less: F,
    ) -> (res: SearchSource)
        requires
            old(self).wf(),
            !query.is_opened_only && old(self)@.search_source(
                (MAX_SEARCH_RESULT_FILES + 1) as usize,
            ) is Remote ==> old(self)@.can_retain(),
            forall|a: String, a_file: bool, b: String, b_file: bool| #[trigger]
                call_requires(path_less, (&a, a_file, &b, b_file)),
        ensures
            final(self).wf(),
            query.is_opened_only ==> final(self)@ == old(self)@ && (res matches SearchSource::Opened(
                ids,
            ) && (exists|from: Seq<int>| #[trigger]
                sort::rearranges(from, old(self)@.search_candidates(query).len())
                    && sort::taken_from(
                    queried_ids(old(self)@.search_candidates(query)),
                    ids@,
                    from,
                )) && (forall|lt: spec_fn(ComparedPath, ComparedPath) -> bool| #[trigger]
                sort::orders(lt) && decides_paths(path_less, lt) ==> exists|
                    sorted: Seq<QueriedBuffer>,
                | #[trigger]
                    sort::stably_sorted(
                        old(self)@.search_candidates(query),
                        sorted,
                        candidate_order(lt),
                    ) && ids@ == queried_ids(sorted))),
            !query.is_opened_only ==> res == old(self)@.search_source(
                (MAX_SEARCH_RESULT_FILES + 1) as usize,
            ) && final(self)@ == (if res is Remote {
                old(self)@.after_retain()
            } else {
                old(self)@
            }),
    {
        if query.is_opened_only {
            SearchSource::Opened(self.sort_search_candidates(query, path_less))
        } else {
            self.find_search_candidate_buffers(MAX_SEARCH_RESULT_FILES + 1)
        }
    }

    /// A participant searches. `None` stands for a sender or a query that the message does not
    /// give; `parsed` is what became of reading the query.
    pub fn handle_search_candidate_buffers(
        &mut self,
        sender: Option<PeerId>,
        parsed: Option<Result<(), PayloadId>>,
        limit: usize,
    ) -> (res: Result<(PeerId, SearchSource), ProjectError>)
        requires
            old(self).wf(),
            sender is Some && (parsed matches Some(Ok(_))) && old(self)@.search_source(
                limit,
            ) is Remote ==> old(self)@.can_retain(),
        ensures
            final(self).wf(),
            match (sender, parsed) {
                (None, _) => res == Err::<(PeerId, SearchSource), ProjectError>(
                    ProjectError::MissingSender,
                ) && final(self)@ == old(self)@,
                (Some(_), None) => res == Err::<(PeerId, SearchSource), ProjectError>(
                    ProjectError::MissingQuery,
                ) && final(self)@ == old(self)@,
                (Some(_), Some(Err(error))) => res == Err::<(PeerId, SearchSource), ProjectError>(
                    ProjectError::Surroundings(error),
                ) && final(self)@ == old(self)@,
                (Some(peer_id), Some(Ok(()))) => res == Ok::<(PeerId, SearchSource), ProjectError>(
                    (peer_id, old(self)@.search_source(limit)),
                ) && final(self)@ == (if old(self)@.search_source(limit) is Remote {
                    old(self)@.after_retain()
                } else {
                    old(self)@
                }),
            },
    {
        let peer_id = match sender {
            Some(peer_id) => peer_id,
            None => return Err(ProjectError::MissingSender),
        };
        match parsed {
            None => return Err(ProjectError::MissingQuery),
            Some(Err(error)) => return Err(ProjectError::Surroundings(error)),
            Some(Ok(())) => {},
        }
        Ok((peer_id, self.find_search_candidate_buffers(limit)))
    }

    /// Hands the buffers that were found to the participant who searches.
    pub fn share_search_candidates(&self, found: &Vec<BufferId>, peer_id: PeerId) -> (res: Reply<
        Vec<BufferId>,
    >)
        ensures
            res.effects@ == found@.map_values(
                |buffer_id: BufferId| Effect::CreateBufferForPeer { buffer_id, peer_id },
            ),
            res.result matches Ok(ids) && ids@ == found@,
    {
        let ghost want = found@.map_values(
            |buffer_id: BufferId| Effect::CreateBufferForPeer { buffer_id, peer_id },
        );
        let mut effects: Vec<Effect> = Vec::new();
        let mut ids: Vec<BufferId> = Vec::new();
        let mut i: usize = 0;
        while i < found.len()
            invariant
                i <= found.len(),
                want == found@.map_values(
                    |buffer_id: BufferId| Effect::CreateBufferForPeer { buffer_id, peer_id },
                ),
                effects@ == want.take(i as int),
                ids@ == found@.take(i as int),
            decreases found.len() - i,
        {
            effects.push(Effect::CreateBufferForPeer { buffer_id: found[i], peer_id });
            ids.push(found[i]);
            i = i + 1;
            assert(effects@ =~= want.take(i as int));
            assert(ids@ =~= found@.take(i as int));
        }
        assert(effects@ =~= want);
        assert(ids@ =~= found@);
        Reply { effects, result: Ok(ids) }
    }
}

/// The identifiers up to the first that cannot be one.
pub open spec fn valid_start(ids: Seq<Option<BufferId>>) -> Seq<BufferId>
    decreases ids.len(),
{
    if ids.len() == 0 {
        Seq::empty()
    } else {
        match ids[0] {
            Some(id) => seq![id] + valid_start(ids.skip(1)),
            None => Seq::empty(),
        }
    }
}

/// The buffers of a server's answer that are waited for: those up to the first identifier that
/// cannot be one, at which the search gives up.
pub fn remote_candidates(ids: &Vec<Option<BufferId>>) -> (res: Vec<BufferId>)
    ensures
        res@ == valid_start(ids@),
{
    let mut res: Vec<BufferId> = Vec::new();
    let mut i: usize = 0;
    assert(ids@.skip(0) =~= ids@);
    assert(valid_start(ids@) =~= res@ + valid_start(ids@.skip(0)));
    while i < ids.len()
        invariant
            i <= ids.len(),
            valid_start(ids@) == res@ + valid_start(ids@.skip(i as int)),
        decreases ids.len() - i,
    {
        assert(ids@.skip(i as int).skip(1) =~= ids@.skip(i as int + 1));
        match ids[i] {
            Some(id) => {
                let ghost before = res@;
                res.push(id);
                assert(before + (seq![id] + valid_start(ids@.skip(i as int + 1))) =~= res@
                    + valid_start(ids@.skip(i as int + 1)));
            },
            None => {
                assert(res@ + Seq::<BufferId>::empty() =~= res@);
                return res;
            },
        }
        i = i + 1;
    }
    assert(res@ + Seq::<BufferId>::empty() =~= res@);
    res
}

/// How far a search has come.
#[derive(Debug)]
pub struct SearchProgress {
    range_count: usize,
    buffer_count: usize,
    limit_reached: bool,
}

/// What a [`SearchProgress`] holds.
#[verifier::ext_equal]
pub struct ProgressView {
    /// The places that were reported.
    pub range_count: nat,
    /// The files that were reported.
    pub buffer_count: nat,
    /// Whether the search stops here.
    pub limit_reached: bool,
}

impl View for SearchProgress {
    type V = ProgressView;

    closed spec fn view(&self) -> ProgressView {
        ProgressView {
            range_count: self.range_count as nat,
            buffer_count: self.buffer_count as nat,
            limit_reached: self.limit_reached,
        }
    }
}

impl ProgressView {
    /// The search before it reported anything.
    pub open spec fn start() -> ProgressView {
        ProgressView { range_count: 0, buffer_count: 0, limit_reached: false }
    }

    /// The search stops exactly when it reported more than it may.
    pub open spec fn wf(self) -> bool {
        self.limit_reached == (self.buffer_count > MAX_SEARCH_RESULT_FILES || self.range_count
            > MAX_SEARCH_RESULT_RANGES)
    }

    /// The search once it reported a file with so many places.
    pub open spec fn reported(self, ranges: nat) -> ProgressView {
        let range_count = self.range_count + ranges;
        let buffer_count = self.buffer_count + 1;
        ProgressView {
            range_count,
            buffer_count,
            limit_reached: buffer_count > MAX_SEARCH_RESULT_FILES || range_count
                > MAX_SEARCH_RESULT_RANGES,
        }
    }
}

impl SearchProgress {
    /// Nothing was reported.
    pub fn new() -> (res: Self)
        ensures
            res@ == ProgressView::start(),
            res@.wf(),
    {
        SearchProgress { range_count: 0, buffer_count: 0, limit_reached: false }
    }

    /// Whether the search stops here; if so it reports that there may be more.
    pub fn limit_reached(&self) -> (res: bool)
        ensures
            res == self@.limit_reached,
    {
        self.limit_reached
    }

    /// A file with so many places is reported.
    pub fn report(&mut self, ranges: usize)
        requires
            old(self)@.wf(),
            !old(self)@.limit_reached,
            ranges <= isize::MAX,
        ensures
            final(self)@.wf(),
            final(self)@ == old(self)@.reported(ranges as nat),
    {
        self.range_count = self.range_count + ranges;
        self.buffer_count = self.buffer_count + 1;
        if self.buffer_count > MAX_SEARCH_RESULT_FILES || self.range_count
            > MAX_SEARCH_RESULT_RANGES {
            self.limit_reached = true;
        }
    }
}

/// The number of places in all.
pub open spec fn range_total(ranges: Seq<nat>) -> nat
    decreases ranges.len(),
{
    if ranges.len() == 0 {
        0
    } else {
        range_total(ranges.drop_last()) + ranges.last()
    }
}

/// The search once it reported files with so many places each.
pub open spec fn after_reports(ranges: Seq<nat>) -> ProgressView
    decreases ranges.len(),
{
    if ranges.len() == 0 {
        ProgressView::start()
    } else {
        after_reports(ranges.drop_last()).reported(ranges.last())
    }
}

/// A search stops with the first file by which it reported more files, or more places in all, than
/// it may; as long as it reported no more, it goes on.
pub proof fn law_search_limits(ranges: Seq<nat>)
    ensures
        after_reports(ranges).wf(),
        after_reports(ranges).buffer_count == ranges.len(),
        after_reports(ranges).range_count == range_total(ranges),
        after_reports(ranges).limit_reached <==> ranges.len() > 5_000 || range_total(ranges)
            > 10_000,
    decreases ranges.len(),
{
    if ranges.len() > 0 {
        law_search_limits(ranges.drop_last());
    }
}

/// The entry with an identifier is this one: it stands first among those with the identifier in its
/// worktree, and no worktree before has one.
pub open spec fn first_with_id(
    worktrees: Seq<Worktree>,
    id: ProjectEntryId,
    w: int,
    k: int,
) -> bool {
    &&& 0 <= w < worktrees.len()
    &&& 0 <= k < worktrees[w].entries@.len()
    &&& worktrees[w].entries@[k].id == id
    &&& forall|j: int| 0 <= j < k ==> (#[trigger] worktrees[w].entries@[j]).id != id
    &&& forall|v: int, j: int|
        #![trigger worktrees[v].entries@[j]]
        0 <= v < w && 0 <= j < worktrees[v].entries@.len() ==> worktrees[v].entries@[j].id != id
}

/// Whether the entry of a file is an ignored one.
pub open spec fn file_ignored(worktrees: Seq<Worktree>, entry_id: Option<ProjectEntryId>) -> bool {
    entry_id matches Some(id) && exists|w: int, k: int|
        #![trigger worktrees[w].entries@[k]]
        first_with_id(worktrees, id, w, k) && worktrees[w].entries@[k].is_ignored
}

proof fn lemma_entry_with(store: WorktreeStore, id: ProjectEntryId)
    ensures
        (store.entry_with(id) matches Some(entry) && entry.is_ignored) <==> file_ignored(
            store.worktrees@,
            Some(id),
        ),
{
    let trees = store.worktrees@;
    let holds = |w: Worktree| w.entry_with(id) is Some;
    let own = |e: Entry| e.id == id;
    seqs::lemma_find_first_index(trees, holds);
    assert forall|v: int, j: int|
        #![trigger trees[v].entries@[j]]
        0 <= v < trees.len() && 0 <= j < trees[v].entries@.len() && !holds(
            trees[v],
        ) implies trees[v].entries@[j].id != id by {
        seqs::lemma_find_first_meaning(trees[v].entries@, own);
        assert(!own(trees[v].entries@[j]));
    }
    match store.with_entry(id) {
        Some(worktree) => {
            let w = choose|w: int|
                0 <= w < trees.len() && trees[w] == worktree && holds(trees[w]) && forall|j: int|
                    0 <= j < w ==> !holds(#[trigger] trees[j]);
            seqs::lemma_find_first_index(trees[w].entries@, own);
            let entry = worktree.entry_with(id)->0;
            let k = choose|k: int|
                0 <= k < trees[w].entries@.len() && trees[w].entries@[k] == entry && own(
                    trees[w].entries@[k],
                ) && forall|j: int| 0 <= j < k ==> !own(#[trigger] trees[w].entries@[j]);
            assert(trees[w].entries@[k] == entry);
            assert forall|j: int| 0 <= j < k implies (#[trigger] trees[w].entries@[j]).id != id by {
                assert(!own(trees[w].entries@[j]));
            }
            assert(first_with_id(trees, id, w, k));
            if file_ignored(trees, Some(id)) {
                let (v, j) = choose|v: int, j: int|
                    #![trigger trees[v].entries@[j]]
                    first_with_id(trees, id, v, j) && trees[v].entries@[j].is_ignored;
                if v < w {
                    assert(!holds(trees[v]));
                } else if w < v {
                    assert(trees[w].entries@[k].id != id);
                }
                if j < k {
                    assert(trees[w].entries@[j].id != id);
                } else if k < j {
                    assert(trees[v].entries@[k].id != id);
                }
            }
        },
        None => {
            if file_ignored(trees, Some(id)) {
                let (v, j) = choose|v: int, j: int|
                    #![trigger trees[v].entries@[j]]
                    first_with_id(trees, id, v, j) && trees[v].entries@[j].is_ignored;
                assert(!holds(trees[v]));
            }
        },
    }
}

/// A given buffer is looked through exactly if it has no file, or its file is one of those that are
/// searched and, unless ignored files are wanted, its entry is not an ignored one. Nothing else of
/// a buffer matters, and those that are looked through stay in their order.
pub proof fn law_which_buffers_are_searched(view: ProjectView, query: SearchQuery)
    ensures
        query.buffers is None ==> view.search_candidates(query).len() == 0,
        query.buffers matches Some(buffers) ==> view.search_candidates(query) == buffers@.filter(
            |q: QueriedBuffer|
                match q.buffer.file {
                    None => true,
                    Some(file) => q.file_matches && (query.include_ignored || !file_ignored(
                        view.worktree_store.worktrees@,
                        file.entry_id,
                    )),
                },
        ),
        forall|a: QueriedBuffer, b: QueriedBuffer|
            a.buffer.file == b.buffer.file && a.file_matches == b.file_matches
                ==> #[trigger] is_candidate(view.worktree_store, query.include_ignored, a)
                == #[trigger] is_candidate(view.worktree_store, query.include_ignored, b),
{
    let store = view.worktree_store;
    let raw = |q: QueriedBuffer|
        match q.buffer.file {
            None => true,
            Some(file) => q.file_matches && (query.include_ignored || !file_ignored(
                store.worktrees@,
                file.entry_id,
            )),
        };
    let own = |q: QueriedBuffer| is_candidate(store, query.include_ignored, q);
    assert forall|q: QueriedBuffer| #[trigger] own(q) == raw(q) by {
        if let Some(file) = q.buffer.file {
            if let Some(id) = file.entry_id {
                lemma_entry_with(store, id);
            }
        }
    }
    assert(own =~= raw);
    if query.buffers is None {
        assert(Seq::<QueriedBuffer>::empty().filter(own).len() == 0) by {
            reveal(Seq::filter);
        }
    }
}

/// Buffers without a file are looked through before the others, by identifier, and the others in
/// the order of their paths as files; entries are sorted by their paths and by whether they are
/// files.
pub proof fn law_search_order(
    lt: spec_fn(ComparedPath, ComparedPath) -> bool,
    a: QueriedBuffer,
    b: QueriedBuffer,
    x: Entry,
    y: Entry,
)
    ensures
        a.buffer.file is None && b.buffer.file is Some ==> candidate_order(lt)(a, b)
            && !candidate_order(lt)(b, a),
        a.buffer.file is None && b.buffer.file is None ==> candidate_order(lt)(a, b) == (
        a.buffer.id.0 < b.buffer.id.0),
        a.buffer.file is Some && b.buffer.file is Some ==> candidate_order(lt)(a, b) == lt(
            (a.buffer.file->0.path, true),
            (b.buffer.file->0.path, true),
        ),
        entry_order(lt)(x, y) == lt((x.path, !x.is_dir), (y.path, !y.is_dir)),
{
}

/// The buffers that are handed on are those of the list, one for one.
pub proof fn law_searched_ids(list: Seq<QueriedBuffer>)
    ensures
        queried_ids(list).len() == list.len(),
        forall|i: int|
            0 <= i < list.len() ==> #[trigger] queried_ids(list)[i] == list[i].buffer.id,
{
}

/// A comparison of paths decides a relation exactly if every answer that it can give is the right
/// one.
pub proof fn law_decides_paths<F: Fn(&String, bool, &String, bool) -> bool>(
    less: F,
    lt: spec_fn(ComparedPath, ComparedPath) -> bool,
)
    ensures
        forall|a: ComparedPath, b: ComparedPath, answer: bool| #[trigger]
            can_answer(&less, a, b, answer) <==> call_ensures(
                less,
                (&a.0, a.1, &b.0, b.1),
                answer,
            ),
        decides_paths(less, lt) <==> forall|a: ComparedPath, b: ComparedPath, answer: bool| #[trigger]
            can_answer(&less, a, b, answer) ==> answer == lt(a, b),
{
    if forall|a: ComparedPath, b: ComparedPath, answer: bool| #[trigger]
        can_answer(&less, a, b, answer) ==> answer == lt(a, b) {
        assert forall|a: String, a_file: bool, b: String, b_file: bool, r: bool| #[trigger]
            call_ensures(less, (&a, a_file, &b, b_file), r) implies r == lt(
            (a, a_file),
            (b, b_file),
        ) by {
            assert(can_answer(&less, (a, a_file), (b, b_file), r));
        }
    }
}

/// Files that are not open are searched for on this machine, on the ssh server, or by the host of
/// another user's project, always with the limit that was given; a project is always searched
/// somewhere.
pub proof fn law_where_files_are_searched(view: ProjectView, limit: usize)
    ensures
        match (view.client_state, view.ssh_client) {
            (_, Some(_)) => view.search_source(limit) == (SearchSource::Remote {
                server: Server::Ssh,
                project_id: 0,
                limit,
            }),
            (ProjectClientState::Remote { remote_id, .. }, None) => view.search_source(limit) == (
            SearchSource::Remote { server: Server::Collab, project_id: remote_id, limit }),
            (_, None) => view.search_source(limit) == (SearchSource::Store { limit }),
        },
{
}

/// A search waits for the buffers that a server lists until an identifier cannot be one.
pub proof fn law_remote_candidates(ids: Seq<Option<BufferId>>)
    ensures
        valid_start(ids).len() <= ids.len(),
        forall|i: int|
            0 <= i < valid_start(ids).len() ==> ids[i] == Some(#[trigger] valid_start(ids)[i]),
        valid_start(ids).len() < ids.len() ==> ids[valid_start(ids).len() as int] is None,
    decreases ids.len(),
{
    if ids.len() > 0 && ids[0] is Some {
        law_remote_candidates(ids.skip(1));
        let rest = valid_start(ids.skip(1));
        assert forall|i: int| 0 <= i < valid_start(ids).len() implies ids[i] == Some(
            #[trigger] valid_start(ids)[i],
        ) by {
            if i > 0 {
                assert(valid_start(ids)[i] == rest[i - 1]);
                assert(ids.skip(1)[i - 1] == ids[i]);
            }
        }
    }
}

} // verus!
