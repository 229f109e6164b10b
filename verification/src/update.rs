//! An update: the pages that are fetched, the documents that are stored, and the statistics kept.

use crate::auctions::{
    bins, documents_are_those_of_the_auctions, documents_outcome, failure_outcome, pages_add_up,
    pages_are_kept_or_left, parse_hypixel, AuctionError,
};
use crate::document::{document_entries, FieldView};
use crate::item::{AuctionResponse, Item, PartialNbt};
use crate::text::{append_decimal, decimal_text, decimal_texts_differ};
use mongodb::bson::Document;
use vstd::prelude::*;

verus! {

/// The address of a page, but for its number.
pub const PAGE_URL: &'static str = "https://api.hypixel.net/skyblock/auctions?page=";

/// The first page that an update fetches.
pub const FIRST_PAGE: i64 = 1;

/// The page before which an update stops fetching.
pub const END_PAGE: i64 = 3;

/// The database that holds the auctions.
pub const DATABASE: &'static str = "skyblock";

/// The collection that holds the auctions.
pub const COLLECTION: &'static str = "rust-query";

/// The address of page `page` of the auction house.
pub fn page_url(page: i64) -> (url: String)
    ensures
        url@ == PAGE_URL@ + decimal_text(page as int),
{
    let mut url: String = PAGE_URL.to_owned();
    append_decimal(&mut url, page);
    url
}

/// No two pages have one address.
pub proof fn page_urls_differ(first: i64, second: i64)
    requires
        first != second,
    ensures
        PAGE_URL@ + decimal_text(first as int) != PAGE_URL@ + decimal_text(second as int),
{
    let head = PAGE_URL@;
    let left = head + decimal_text(first as int);
    let right = head + decimal_text(second as int);
    assert(left.skip(head.len() as int) =~= decimal_text(first as int));
    assert(right.skip(head.len() as int) =~= decimal_text(second as int));
    decimal_texts_differ(first as int, second as int);
}

/// What is told of the updates.
#[derive(Debug, PartialEq, Eq, Clone, Copy)]
pub struct Statistics {
    pub is_updating: bool,
    pub total_updates: i16,
    pub last_updated: i64,
}

impl Statistics {
    /// The statistics while an update is under way.
    pub open spec fn begun(self) -> Statistics {
        Statistics { is_updating: true, ..self }
    }

    /// The statistics once an update has ended.
    pub open spec fn finished(self) -> Statistics {
        Statistics {
            is_updating: false,
            total_updates: (self.total_updates + 1) as i16,
            last_updated: self.last_updated,
        }
    }

    /// The statistics once an update has ended, counted if the count has room for one more.
    pub open spec fn ended(self) -> Statistics {
        if self.total_updates < i16::MAX {
            self.finished()
        } else {
            Statistics { is_updating: false, ..self }
        }
    }

    /// The statistics before any update.
    pub fn new() -> (statistics: Statistics)
        ensures
            statistics == (Statistics { is_updating: false, total_updates: 0, last_updated: 0 }),
    {
        Statistics { is_updating: false, total_updates: 0, last_updated: 0 }
    }

    /// Notes that an update has begun.
    pub fn begin_update(&mut self)
        ensures
            *final(self) == old(self).begun(),
    {
        self.is_updating = true;
    }

    /// Notes that an update has ended.
    pub fn finish_update(&mut self)
        requires
            old(self).total_updates < i16::MAX,
        ensures
            *final(self) == old(self).finished(),
    {
        self.is_updating = false;
        self.total_updates = self.total_updates + 1;
    }
}

/// What an update needs next.
#[derive(Debug, PartialEq, Eq, Clone, Copy)]
pub enum Step {
    /// The page of this number.
    Fetch(i64),
    /// That the indexes of the collection are dropped.
    DropIndexes,
    /// That its documents are inserted.
    Insert,
    /// Nothing.
    Done,
}

/// An update under way.
pub struct Update {
    step: Step,
    documents: Vec<Document>,
}

/// What an update needs next, and the documents that it has of the pages before.
pub struct UpdateView {
    pub step: Step,
    pub documents: Seq<Document>,
}

impl View for Update {
    type V = UpdateView;

    closed spec fn view(&self) -> UpdateView {
        UpdateView { step: self.step, documents: self.documents@ }
    }
}

/// An update that has fetched nothing yet.
pub open spec fn fresh() -> UpdateView {
    UpdateView { step: Step::Fetch(FIRST_PAGE), documents: Seq::empty() }
}

/// What is needed after page `page`.
pub open spec fn step_after(page: i64) -> Step {
    if page + 1 < END_PAGE {
        Step::Fetch((page + 1) as i64)
    } else {
        Step::DropIndexes
    }
}

/// Whether receiving `auctions` on the page asked for can take an update from `before` to `after`:
/// the documents of the page are added to those that it has, and the page is done with.
pub open spec fn received<E, F: Fn(Vec<u8>) -> Result<PartialNbt, E>>(
    before: UpdateView,
    auctions: Seq<Item>,
    read: F,
    after: UpdateView,
) -> bool {
    &&& before.step is Fetch
    &&& after.step == step_after(before.step->0)
    &&& exists|added: Seq<Document>|
        #[trigger] documents_outcome::<E, F>(bins(auctions), read, added) && after.documents
            == before.documents + added
}

impl UpdateView {
    /// The update at another step.
    pub open spec fn at(self, step: Step) -> UpdateView {
        UpdateView { step, ..self }
    }
}

impl Update {
    /// Begins an update, which has fetched nothing yet.
    pub fn start(statistics: &mut Statistics) -> (update: Update)
        ensures
            update@ == fresh(),
            *final(statistics) == old(statistics).begun(),
    {
        statistics.begin_update();
        let update = Update { step: Step::Fetch(FIRST_PAGE), documents: Vec::new() };
        assert(update.documents@ =~= Seq::<Document>::empty());
        update
    }

    /// What the update needs next.
    pub fn step(&self) -> (step: Step)
        ensures
            step == self@.step,
    {
        self.step
    }

    /// Takes the page that was asked for. Where no document can be made of one of its auctions, the
    /// update stays as it was.
    pub fn receive<E, F: Fn(Vec<u8>) -> Result<PartialNbt, E>>(
        &mut self,
        response: AuctionResponse,
        read: &F,
    ) -> (outcome: Result<(), AuctionError<E>>)
        requires
            old(self)@.step is Fetch,
            forall|bytes: Vec<u8>| call_requires(*read, (bytes,)),
        ensures
            match outcome {
                Ok(_) => received::<E, F>(
                    old(self)@,
                    response.auctions@,
                    *read,
                    final(self)@,
                ),
                Err(error) => {
                    &&& failure_outcome(bins(response.auctions@), *read, error)
                    &&& final(self)@ == old(self)@
                },
            },
    {
        match parse_hypixel(response.auctions, read) {
            Err(error) => Err(error),
            Ok(mut added) => {
                let ghost new_documents = added@;
                self.documents.append(&mut added);
                if let Step::Fetch(page) = self.step {
                    if page < END_PAGE - 1 {
                        self.step = Step::Fetch(page + 1);
                    } else {
                        self.step = Step::DropIndexes;
                    }
                }
                assert(documents_outcome::<E, F>(
                    bins(response.auctions@),
                    *read,
                    new_documents,
                ));
                Ok(())
            },
        }
    }

    /// Notes that the indexes were dropped.
    pub fn indexes_dropped(&mut self)
        requires
            old(self)@.step is DropIndexes,
        ensures
            final(self)@ == old(self)@.at(Step::Insert),
    {
        self.step = Step::Insert;
    }

    /// The documents to insert.
    pub fn documents(&self) -> (documents: &Vec<Document>)
        ensures
            documents@ == self@.documents,
    {
        &self.documents
    }

    /// Notes that the documents were inserted, which ends the update. It is counted, unless the
    /// count is full.
    pub fn inserted(&mut self, statistics: &mut Statistics) -> (counted: bool)
        requires
            old(self)@.step is Insert,
        ensures
            final(self)@ == old(self)@.at(Step::Done),
            *final(statistics) == old(statistics).ended(),
            counted == (old(statistics).total_updates < i16::MAX),
    {
        self.step = Step::Done;
        if statistics.total_updates < i16::MAX {
            statistics.finish_update();
            true
        } else {
            statistics.is_updating = false;
            false
        }
    }
}

/// An update with the statistics, while no other update is under way.
pub struct Run {
    pub update: UpdateView,
    pub statistics: Statistics,
}

/// Whether `run` has just begun, from the statistics `before`.
pub open spec fn run_begins(before: Statistics, run: Run) -> bool {
    run.update == fresh() && run.statistics == before.begun()
}

/// Whether a run can go from `before` to `after` in one step: a page is received, the indexes are
/// dropped, or the documents are inserted.
pub open spec fn run_goes_on<E, F: Fn(Vec<u8>) -> Result<PartialNbt, E>>(
    before: Run,
    read: F,
    after: Run,
) -> bool {
    match before.update.step {
        Step::Fetch(_) => {
            &&& exists|auctions: Seq<Item>|
                #[trigger] received::<E, F>(before.update, auctions, read, after.update)
            &&& after.statistics == before.statistics
        },
        Step::DropIndexes => {
            &&& after.update == before.update.at(Step::Insert)
            &&& after.statistics == before.statistics
        },
        Step::Insert => {
            &&& after.update == before.update.at(Step::Done)
            &&& after.statistics == before.statistics.ended()
        },
        Step::Done => false,
    }
}

/// While an update needs anything, be it a page, the dropping of the indexes or the insertion, it is
/// told to be under way, and it is not counted. Only once the documents are inserted is it told to be
/// over, and then it is counted, if the count has room.
pub proof fn flag_is_up_until_done<E, F: Fn(Vec<u8>) -> Result<PartialNbt, E>>(
    before: Statistics,
    runs: Seq<Run>,
    read: F,
    i: int,
)
    requires
        0 <= i < runs.len(),
        run_begins(before, runs[0]),
        forall|k: int|
            0 <= k < runs.len() - 1 ==> run_goes_on::<E, F>(#[trigger] runs[k], read, runs[k + 1]),
    ensures
        runs[i].update.step !is Done ==> runs[i].statistics == before.begun(),
        runs[i].update.step !is Done ==> runs[i].statistics.is_updating,
        runs[i].update.step !is Done ==> runs[i].statistics.total_updates == before.total_updates,
        runs[i].update.step is Done ==> i > 0 && runs[i - 1].update.step is Insert,
        runs[i].update.step is Done ==> runs[i].statistics == before.begun().ended(),
        runs[i].update.step is Done ==> !runs[i].statistics.is_updating,
        runs[i].update.step is Done && before.total_updates < i16::MAX ==> runs[i].statistics.total_updates
            == before.total_updates + 1,
    decreases i,
{
    if i > 0 {
        flag_is_up_until_done::<E, F>(before, runs, read, i - 1);
        let k = i - 1;
        assert(run_goes_on::<E, F>(runs[k], read, runs[k + 1]));
    }
}

/// An update asks for the first page, then for the second, then that the indexes are dropped, and
/// then that the documents of all auctions at a fixed price on the first page, followed by those on
/// the second, are inserted.
pub proof fn update_stores_two_pages<E, F: Fn(Vec<u8>) -> Result<PartialNbt, E>>(
    start: UpdateView,
    first: Seq<Item>,
    middle: UpdateView,
    second: Seq<Item>,
    end: UpdateView,
    read: F,
)
    requires
        start == fresh(),
        received::<E, F>(start, first, read, middle),
        received::<E, F>(middle, second, read, end),
    ensures
        start.step == Step::Fetch(1),
        start.documents.len() == 0,
        middle.step == Step::Fetch(2),
        end.step == Step::DropIndexes,
        documents_outcome::<E, F>(bins(first + second), read, end.documents),
        end.at(Step::Insert).documents == end.documents,
{
    let head = choose|added: Seq<Document>|
        #[trigger] documents_outcome::<E, F>(bins(first), read, added) && middle.documents
            == start.documents + added;
    let tail = choose|added: Seq<Document>|
        #[trigger] documents_outcome::<E, F>(bins(second), read, added) && end.documents
            == middle.documents + added;
    pages_add_up(first, second);
    assert(end.documents =~= head + tail);
}

/// Once an update is over, nothing is under way and one more is counted; when anything was last
/// updated is never noted.
pub proof fn update_is_counted_once(statistics: Statistics)
    requires
        statistics.total_updates < i16::MAX,
    ensures
        statistics.begun().is_updating,
        !statistics.begun().finished().is_updating,
        statistics.begun().finished().total_updates == statistics.total_updates + 1,
        statistics.begun().finished().last_updated == statistics.last_updated,
{
}

/// The beginning of an update raises the flag, whether or not it was up, and changes no number.
pub proof fn beginning_raises_the_flag(statistics: Statistics)
    ensures
        statistics.begun().is_updating,
        statistics.begun().total_updates == statistics.total_updates,
        statistics.begun().last_updated == statistics.last_updated,
{
}

/// The end of an update takes the flag down, counts one more, unless the count is full and stays,
/// and leaves the time of the last update.
pub proof fn ending_takes_the_flag_down(statistics: Statistics)
    ensures
        !statistics.ended().is_updating,
        statistics.total_updates < 32767 ==> statistics.ended().total_updates
            == statistics.total_updates + 1,
        statistics.total_updates == 32767 ==> statistics.ended().total_updates == 32767,
        statistics.ended().last_updated == statistics.last_updated,
        !statistics.finished().is_updating,
        statistics.total_updates < 32767 ==> statistics.finished().total_updates
            == statistics.total_updates + 1,
        statistics.finished().last_updated == statistics.last_updated,
{
}

/// An update begins with no document and the first page; a page before the second is followed by
/// the next one, and any other by the dropping of the indexes.
pub proof fn pages_follow_one_another(page: i64)
    ensures
        fresh().documents.len() == 0,
        fresh().step == Step::Fetch(1),
        page < 2 ==> step_after(page) == Step::Fetch((page + 1) as i64),
        page >= 2 ==> step_after(page) == Step::DropIndexes,
{
}

/// A step that fetches nothing leaves the documents as they are.
pub proof fn steps_leave_the_documents(update: UpdateView, step: Step)
    ensures
        update.at(step).step == step,
        update.at(step).documents == update.documents,
{
}

/// A page that was received leaves the documents of the pages before in their places, and adds, at
/// the end, one for each of its auctions at a fixed price, in their order and each holding the uuid
/// of its auction.
pub proof fn page_is_added_whole<E, F: Fn(Vec<u8>) -> Result<PartialNbt, E>>(
    before: UpdateView,
    auctions: Seq<Item>,
    read: F,
    after: UpdateView,
    i: int,
)
    requires
        received::<E, F>(before, auctions, read, after),
    ensures
        before.step is Fetch,
        before.step->Fetch_0 < 2 ==> after.step == Step::Fetch((before.step->Fetch_0 + 1) as i64),
        before.step->Fetch_0 >= 2 ==> after.step == Step::DropIndexes,
        after.documents.len() == before.documents.len() + bins(auctions).len(),
        after.documents.take(before.documents.len() as int) == before.documents,
        documents_outcome::<E, F>(
            bins(auctions),
            read,
            after.documents.skip(before.documents.len() as int),
        ),
        0 <= i < bins(auctions).len() ==> document_entries(
            after.documents[before.documents.len() + i],
        )[0] == ("uuid"@, FieldView::Text(bins(auctions)[i].uuid@)),
{
    let added = choose|added: Seq<Document>|
        #[trigger] documents_outcome::<E, F>(bins(auctions), read, added) && after.documents
            == before.documents + added;
    assert(after.documents.skip(before.documents.len() as int) =~= added);
    assert(after.documents.take(before.documents.len() as int) =~= before.documents);
    documents_are_those_of_the_auctions::<E, F>(auctions, read, added, i);
    assert(0 <= i < added.len() ==> after.documents[before.documents.len() + i] == added[i]);
}

/// A page without an auction at a fixed price adds no document.
pub proof fn page_without_bins_adds_nothing<E, F: Fn(Vec<u8>) -> Result<PartialNbt, E>>(
    before: UpdateView,
    auctions: Seq<Item>,
    read: F,
    after: UpdateView,
)
    requires
        received::<E, F>(before, auctions, read, after),
        forall|i: int| 0 <= i < auctions.len() ==> (#[trigger] auctions[i]).bin != Some(true),
    ensures
        after.documents == before.documents,
{
    pages_are_kept_or_left(auctions);
}

} // verus!
