//! Reading a list that the platform hands out page by page.
//!
//! A `Walk` is the state of one such reading. The caller fetches the page
//! that the state asks for and reports what came back; the walk collects the
//! items, asks for the next page, asks again for a page that could not be
//! fetched, or gives up. Only a failure of the transport is worth another
//! try: an error that the platform itself answered with would be answered
//! again.

use crate::github_contribution_collector::Failure;
use vstd::prelude::*;

verus! {

/// How often one page is asked for before the walk gives up.
pub const MAX_TRIES: usize = 5;

/// One page of a list: its items and, unless it is the last page, the
/// address of the page that follows.
#[derive(Debug)]
pub struct Page<T> {
    pub items: Vec<T>,
    pub next: Option<String>,
}

/// The state of a walk.
#[derive(Debug)]
pub enum Walk<T, E> {
    /// The page at `cursor` has to be fetched. It will be asked for
    /// `tries_left` times at most, this time included.
    Fetch { collected: Vec<T>, cursor: String, tries_left: usize },
    /// The last page was read: `items` holds the whole list.
    Done { items: Vec<T> },
    /// A page could not be fetched; `error` is what the last attempt failed
    /// with.
    Failed { error: E },
}

/// A page as a value: the sequence of its items and the text of the address
/// that follows.
pub struct PageView<T> {
    pub items: Seq<T>,
    pub next: Option<Seq<char>>,
}

/// A walk as a value.
pub enum WalkView<T, E> {
    Fetch { collected: Seq<T>, cursor: Seq<char>, tries_left: nat },
    Done { items: Seq<T> },
    Failed { error: E },
}

impl<T> View for Page<T> {
    type V = PageView<T>;

    open spec fn view(&self) -> PageView<T> {
        PageView {
            items: self.items@,
            next: match self.next {
                Some(address) => Some(address@),
                None => None,
            },
        }
    }
}

impl<T, E> View for Walk<T, E> {
    type V = WalkView<T, E>;

    open spec fn view(&self) -> WalkView<T, E> {
        match *self {
            Walk::Fetch { collected, cursor, tries_left } => WalkView::Fetch {
                collected: collected@,
                cursor: cursor@,
                tries_left: tries_left as nat,
            },
            Walk::Done { items } => WalkView::Done { items: items@ },
            Walk::Failed { error } => WalkView::Failed { error },
        }
    }
}

/// A page that is there or not, as a value.
pub open spec fn page_view<T>(page: Option<Page<T>>) -> Option<PageView<T>> {
    match page {
        Some(first) => Some(first@),
        None => None,
    }
}

/// What came back for a request, as a value.
pub open spec fn response_view<T, E>(response: Result<Page<T>, Failure<E>>) -> Result<
    PageView<T>,
    Failure<E>,
> {
    match response {
        Ok(page) => Ok(page@),
        Err(failure) => Err(failure),
    }
}

impl<T, E> WalkView<T, E> {
    /// The walk after a page was read on top of what was `collected`: it
    /// goes on to the page that follows, with all its tries, or is done.
    pub open spec fn advance(collected: Seq<T>, page: PageView<T>) -> WalkView<T, E> {
        match page.next {
            Some(address) => WalkView::Fetch {
                collected: collected + page.items,
                cursor: address,
                tries_left: MAX_TRIES as nat,
            },
            None => WalkView::Done { items: collected + page.items },
        }
    }

    /// The walk that starts from the first page of a list, or from a list
    /// that has no page at all.
    pub open spec fn begin(first: Option<PageView<T>>) -> WalkView<T, E> {
        match first {
            Some(page) => Self::advance(Seq::empty(), page),
            None => WalkView::Done { items: Seq::empty() },
        }
    }

    /// The walk after the answer to the request that it asked for.
    ///
    /// A page that was fetched is added to what was collected. A request
    /// that failed in the transport is made again as long as at least two
    /// tries are left, this one included; the failure of the last try ends
    /// the walk, and so does, at once, an error that the platform answered
    /// with. A walk that asks for nothing is not changed by an answer.
    pub open spec fn step(self, response: Result<PageView<T>, Failure<E>>) -> WalkView<T, E> {
        match self {
            WalkView::Fetch { collected, cursor, tries_left } => match response {
                Ok(page) => Self::advance(collected, page),
                Err(failure) => if failure.is_transient() && tries_left >= 2 {
                    WalkView::Fetch { collected, cursor, tries_left: (tries_left - 1) as nat }
                } else {
                    WalkView::Failed { error: failure.error }
                },
            },
            _ => self,
        }
    }

    /// The walk after a series of answers, each to the request that the walk
    /// asked for when it came.
    pub open spec fn run(self, responses: Seq<Result<PageView<T>, Failure<E>>>) -> WalkView<T, E>
        decreases responses.len(),
    {
        if responses.len() == 0 {
            self
        } else {
            self.step(responses.first()).run(responses.drop_first())
        }
    }
}

fn advance<T, E>(collected: Vec<T>, page: Page<T>) -> (walk: Walk<T, E>)
    ensures
        walk@ == WalkView::<T, E>::advance(collected@, page@),
{
    let mut items = collected;
    let mut added = page.items;
    items.append(&mut added);
    match page.next {
        Some(address) => Walk::Fetch { collected: items, cursor: address, tries_left: MAX_TRIES },
        None => Walk::Done { items },
    }
}

/// Starts the walk through a list from its first page. A list without a
/// first page is empty.
pub fn process_pages<T, E>(first: Option<Page<T>>) -> (walk: Walk<T, E>)
    ensures
        walk@ == WalkView::<T, E>::begin(page_view(first)),
{
    match first {
        Some(page) => advance(Vec::new(), page),
        None => Walk::Done { items: Vec::new() },
    }
}

/// Whether a failed request is made again: when it failed in the transport
/// and at least two tries were left, the failed one included.
pub fn should_retry<E>(failure: &Failure<E>, tries_left: usize) -> (again: bool)
    ensures
        again == (failure.is_transient() && tries_left >= 2),
{
    failure.documentation_url.is_none() && tries_left >= 2
}

impl<T, E> Walk<T, E> {
    /// Takes the answer to the request that the walk asked for.
    pub fn on_response(self, response: Result<Page<T>, Failure<E>>) -> (walk: Self)
        ensures
            walk@ == self@.step(response_view(response)),
    {
        match self {
            Walk::Fetch { collected, cursor, tries_left } => match response {
                Ok(page) => advance(collected, page),
                Err(failure) => {
                    if should_retry(&failure, tries_left) {
                        Walk::Fetch { collected, cursor, tries_left: tries_left - 1 }
                    } else {
                        Walk::Failed { error: failure.error }
                    }
                },
            },
            other => other,
        }
    }
}

/// What comes back for one page that is fetched at last: each of `failures`
/// in turn, then the page.
pub open spec fn attempts<T, E>(failures: Seq<Failure<E>>, page: PageView<T>) -> Seq<
    Result<PageView<T>, Failure<E>>,
> {
    failures.map_values(|failure: Failure<E>| Err::<PageView<T>, Failure<E>>(failure)).push(
        Ok(page),
    )
}

/// What comes back while `pages` are read one after the other, where the
/// requests for the page at position `k` fail with `failures[k]` first.
pub open spec fn script<T, E>(pages: Seq<PageView<T>>, failures: Seq<Seq<Failure<E>>>) -> Seq<
    Result<PageView<T>, Failure<E>>,
>
    decreases pages.len(),
{
    if pages.len() == 0 {
        Seq::empty()
    } else {
        attempts(failures.first(), pages.first()) + script(
            pages.drop_first(),
            failures.drop_first(),
        )
    }
}

/// The failures are bearable: all of them are failures of the transport, and
/// there are fewer of them than `tries` tries.
pub open spec fn bearable<E>(failures: Seq<Failure<E>>, tries: nat) -> bool {
    &&& failures.len() < tries
    &&& forall|k: int| 0 <= k < failures.len() ==> (#[trigger] failures[k]).is_transient()
}

/// `first` and `rest` are a whole list: each page but the last names a page
/// that follows, and the last names none.
pub open spec fn linked<T>(first: PageView<T>, rest: Seq<PageView<T>>) -> bool
    decreases rest.len(),
{
    if rest.len() == 0 {
        first.next is None
    } else {
        first.next is Some && linked(rest.first(), rest.drop_first())
    }
}

/// The items of `pages`, page after page.
pub open spec fn items_of<T>(pages: Seq<PageView<T>>) -> Seq<T>
    decreases pages.len(),
{
    if pages.len() == 0 {
        Seq::empty()
    } else {
        pages.first().items + items_of(pages.drop_first())
    }
}

/// Answers that come one series after another are taken one series after
/// another.
pub proof fn lemma_run_in_parts<T, E>(
    walk: WalkView<T, E>,
    earlier: Seq<Result<PageView<T>, Failure<E>>>,
    later: Seq<Result<PageView<T>, Failure<E>>>,
)
    ensures
        walk.run(earlier + later) == walk.run(earlier).run(later),
    decreases earlier.len(),
{
    if earlier.len() == 0 {
        assert(earlier + later =~= later);
    } else {
        assert((earlier + later).first() == earlier.first());
        assert((earlier + later).drop_first() =~= earlier.drop_first() + later);
        lemma_run_in_parts(walk.step(earlier.first()), earlier.drop_first(), later);
    }
}

/// A page that is fetched after bearable failures is read as if no request
/// for it had failed.
pub proof fn lemma_failures_within_tries<T, E>(
    collected: Seq<T>,
    cursor: Seq<char>,
    tries_left: nat,
    failures: Seq<Failure<E>>,
    page: PageView<T>,
)
    requires
        bearable(failures, tries_left),
    ensures
        (WalkView::<T, E>::Fetch { collected, cursor, tries_left }).run(attempts(failures, page))
            == WalkView::<T, E>::advance(collected, page),
    decreases failures.len(),
{
    let walk = WalkView::<T, E>::Fetch { collected, cursor, tries_left };
    let answers = attempts(failures, page);
    if failures.len() == 0 {
        assert(answers.drop_first() =~= Seq::<Result<PageView<T>, Failure<E>>>::empty());
        assert(walk.step(answers.first()).run(answers.drop_first()) == walk.step(answers.first()));
    } else {
        assert(answers.first() == Err::<PageView<T>, Failure<E>>(failures.first()));
        assert(answers.drop_first() =~= attempts(failures.drop_first(), page));
        assert(failures[0].is_transient());
        assert forall|k: int| 0 <= k < failures.drop_first().len() implies (
        #[trigger] failures.drop_first()[k]).is_transient() by {
            assert(failures[k + 1].is_transient());
        }
        lemma_failures_within_tries::<T, E>(
            collected,
            cursor,
            (tries_left - 1) as nat,
            failures.drop_first(),
            page,
        );
    }
}

/// A page that fails in the transport as often as tries were left ends the
/// walk, with the failure of the last try.
pub proof fn lemma_walk_gives_up<T, E>(
    collected: Seq<T>,
    cursor: Seq<char>,
    tries_left: nat,
    failures: Seq<Failure<E>>,
)
    requires
        0 < tries_left,
        failures.len() == tries_left,
        forall|k: int| 0 <= k < failures.len() ==> (#[trigger] failures[k]).is_transient(),
    ensures
        (WalkView::<T, E>::Fetch { collected, cursor, tries_left }).run(
            failures.map_values(|failure: Failure<E>| Err::<PageView<T>, Failure<E>>(failure)),
        ) == (WalkView::<T, E>::Failed { error: failures.last().error }),
    decreases failures.len(),
{
    let walk = WalkView::<T, E>::Fetch { collected, cursor, tries_left };
    let answers = failures.map_values(
        |failure: Failure<E>| Err::<PageView<T>, Failure<E>>(failure),
    );
    assert(answers.first() == Err::<PageView<T>, Failure<E>>(failures.first()));
    assert(answers.drop_first() =~= failures.drop_first().map_values(
        |failure: Failure<E>| Err::<PageView<T>, Failure<E>>(failure),
    ));
    assert(failures[0].is_transient());
    if tries_left == 1 {
        assert(answers.drop_first() =~= Seq::<Result<PageView<T>, Failure<E>>>::empty());
        assert(walk.step(answers.first()).run(answers.drop_first()) == walk.step(answers.first()));
        assert(failures.last() == failures.first());
    } else {
        assert forall|k: int| 0 <= k < failures.drop_first().len() implies (
        #[trigger] failures.drop_first()[k]).is_transient() by {
            assert(failures[k + 1].is_transient());
        }
        lemma_walk_gives_up::<T, E>(
            collected,
            cursor,
            (tries_left - 1) as nat,
            failures.drop_first(),
        );
        assert(failures.drop_first().last() == failures.last());
    }
}

/// An error that the platform answered with ends the walk at once, however
/// many tries were left.
pub proof fn lemma_walk_stops_at_platform_error<T, E>(
    collected: Seq<T>,
    cursor: Seq<char>,
    tries_left: nat,
    failure: Failure<E>,
)
    requires
        !failure.is_transient(),
    ensures
        (WalkView::<T, E>::Fetch { collected, cursor, tries_left }).step(Err(failure))
            == (WalkView::<T, E>::Failed { error: failure.error }),
{
}

/// A walk that has read `page` on top of what was `collected` reads the rest
/// of the list, as long as the failures of every page are bearable.
proof fn lemma_walk_from<T, E>(
    collected: Seq<T>,
    page: PageView<T>,
    rest: Seq<PageView<T>>,
    failures: Seq<Seq<Failure<E>>>,
)
    requires
        linked(page, rest),
        failures.len() == rest.len(),
        forall|k: int|
            0 <= k < failures.len() ==> bearable(#[trigger] failures[k], MAX_TRIES as nat),
    ensures
        WalkView::<T, E>::advance(collected, page).run(script(rest, failures)) == (WalkView::<
            T,
            E,
        >::Done { items: collected + page.items + items_of(rest) }),
    decreases rest.len(),
{
    let walk = WalkView::<T, E>::advance(collected, page);
    if rest.len() == 0 {
        assert(collected + page.items + items_of(rest) =~= collected + page.items);
    } else {
        let next = rest.first();
        let answers = attempts(failures.first(), next);
        let later = script(rest.drop_first(), failures.drop_first());
        lemma_run_in_parts(walk, answers, later);
        assert(bearable(failures[0], MAX_TRIES as nat));
        lemma_failures_within_tries::<T, E>(
            collected + page.items,
            page.next->0,
            MAX_TRIES as nat,
            failures.first(),
            next,
        );
        assert forall|k: int| 0 <= k < failures.drop_first().len() implies bearable(
            #[trigger] failures.drop_first()[k],
            MAX_TRIES as nat,
        ) by {
            assert(failures.drop_first()[k] == failures[k + 1]);
        }
        lemma_walk_from::<T, E>(
            collected + page.items,
            next,
            rest.drop_first(),
            failures.drop_first(),
        );
        assert(collected + page.items + next.items + items_of(rest.drop_first()) =~= collected
            + page.items + items_of(rest));
    }
}

/// A walk reads the whole list: from the first page on it collects the items
/// of every page, each once and in the order of the pages, whichever requests
/// fail on the way, as long as the failures of every page are bearable.
pub proof fn lemma_walk_reads_every_page<T, E>(
    first: PageView<T>,
    rest: Seq<PageView<T>>,
    failures: Seq<Seq<Failure<E>>>,
)
    requires
        linked(first, rest),
        failures.len() == rest.len(),
        forall|k: int|
            0 <= k < failures.len() ==> bearable(#[trigger] failures[k], MAX_TRIES as nat),
    ensures
        WalkView::<T, E>::begin(Some(first)).run(script(rest, failures)) == (WalkView::<
            T,
            E,
        >::Done { items: first.items + items_of(rest) }),
{
    lemma_walk_from::<T, E>(Seq::empty(), first, rest, failures);
    assert(Seq::<T>::empty() + first.items + items_of(rest) =~= first.items + items_of(rest));
}

} // verus!
