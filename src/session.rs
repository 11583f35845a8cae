use vstd::prelude::*;

use crate::credential::{app_credential, credential_outcome};
use crate::error::RunError;
use crate::text::{log_line, log_line_of};

verus! {

/// An open issue or pull request, as the listing returned it.
pub struct WorkItem {
    pub number: u64,
    pub title: String,
    /// Whether the record carries pull-request linkage.
    pub pull_request: bool,
}

pub struct ItemView {
    pub number: nat,
    pub title: Seq<char>,
    pub pull_request: bool,
}

impl View for WorkItem {
    type V = ItemView;

    open spec fn view(&self) -> ItemView {
        ItemView { number: self.number as nat, title: self.title@, pull_request: self.pull_request }
    }
}

/// One page of the open-item listing, and whether another page follows it.
pub struct Page {
    pub items: Vec<WorkItem>,
    pub has_next: bool,
}

pub open spec fn items_view(items: Seq<WorkItem>) -> Seq<ItemView> {
    items.map_values(|i: WorkItem| i@)
}

pub struct PageView {
    pub items: Seq<ItemView>,
    pub has_next: bool,
}

impl View for Page {
    type V = PageView;

    open spec fn view(&self) -> PageView {
        PageView { items: items_view(self.items@), has_next: self.has_next }
    }
}

/// One installation of the app: the account it is installed on, and where its
/// access tokens are created.
pub struct Installation {
    pub account: String,
    pub access_tokens_url: Option<String>,
}

/// An installation that can grant a token for the owner's repositories.
pub open spec fn usable(inst: Installation, owner: Seq<char>) -> bool {
    inst.account@ == owner && inst.access_tokens_url is Some
}

/// Where a run stands: what the closer waits for next.
#[derive(PartialEq, Eq, Structural, Clone, Copy, Debug)]
pub enum Phase {
    /// Waiting for the app's id and key.
    Configuring,
    /// Waiting for the list of the app's installations.
    SelectingInstallation,
    /// Waiting for the scoped access token.
    ExchangingToken,
    /// Waiting for a page of open items.
    Listing,
    /// Waiting for the close of the item last handed out.
    Closing,
    /// Every listed item was closed and no page follows.
    Done,
}

/// What the driver of a run does next.
pub enum Action {
    /// List the app's installations, authenticated with this credential.
    ListInstallations { credential: String },
    /// Create an installation access token at `url`, scoped to `repositories`.
    CreateToken { url: String, repositories: Vec<String> },
    /// List the repository's open issues and pull requests.
    ListOpen,
    /// Print `line`, then close item `number` as not planned.
    Close { number: u64, line: String },
    /// Fetch the page that follows the last one.
    FetchNext,
    /// Nothing is left to do.
    Finished,
}

pub enum ActionView {
    ListInstallations { credential: Seq<char> },
    CreateToken { url: Seq<char>, repositories: Seq<Seq<char>> },
    ListOpen,
    Close { number: nat, line: Seq<char> },
    FetchNext,
    Finished,
}

impl View for Action {
    type V = ActionView;

    open spec fn view(&self) -> ActionView {
        match self {
            Action::ListInstallations { credential } => ActionView::ListInstallations { credential: credential@ },
            Action::CreateToken { url, repositories } => ActionView::CreateToken {
                url: url@,
                repositories: repositories@.map_values(|s: String| s@),
            },
            Action::ListOpen => ActionView::ListOpen,
            Action::Close { number, line } => ActionView::Close { number: *number as nat, line: line@ },
            Action::FetchNext => ActionView::FetchNext,
            Action::Finished => ActionView::Finished,
        }
    }
}

/// The state of a run, as a closer sees it.
pub struct CloserView {
    pub phase: Phase,
    pub owner: Seq<char>,
    pub repo: Seq<char>,
    /// Every item of every page received so far, in the listing's order.
    pub listed: Seq<ItemView>,
    /// How many of `listed` were handed out to be closed; always a prefix.
    pub closed: nat,
    /// Whether the last page received has a page after it.
    pub has_next: bool,
}

/// The next step of the closing walk: hand out the first item that was not
/// yet handed out, numbering it from one; else fetch the next page if there is
/// one; else finish.
pub open spec fn advance(m: CloserView) -> (CloserView, ActionView) {
    if m.closed < m.listed.len() {
        let item = m.listed[m.closed as int];
        (
            CloserView { phase: Phase::Closing, closed: m.closed + 1, ..m },
            ActionView::Close {
                number: item.number,
                line: log_line_of(m.closed + 1, item.number, item.pull_request, item.title),
            },
        )
    } else if m.has_next {
        (CloserView { phase: Phase::Listing, ..m }, ActionView::FetchNext)
    } else {
        (CloserView { phase: Phase::Done, ..m }, ActionView::Finished)
    }
}

/// A page arrives: its items join the listing in order, then the walk goes on.
pub open spec fn receive_page(m: CloserView, items: Seq<ItemView>, has_next: bool) -> (CloserView, ActionView) {
    advance(CloserView { listed: m.listed + items, has_next: has_next, ..m })
}

/// The decisions of one close-all run over one repository.
///
/// The driver performs each [`Action`] that a method returns and reports the
/// outcome through the method for the closer's present [`Phase`].
pub struct Closer {
    owner: String,
    repo: String,
    phase: Phase,
    page: Vec<WorkItem>,
    next: usize,
    has_next: bool,
    closed: u64,
    listed: Ghost<Seq<ItemView>>,
}

impl View for Closer {
    type V = CloserView;

    closed spec fn view(&self) -> CloserView {
        CloserView {
            phase: self.phase,
            owner: self.owner@,
            repo: self.repo@,
            listed: self.listed@,
            closed: self.closed as nat,
            has_next: self.has_next,
        }
    }
}

impl Closer {
    /// The current page is the tail of the listing, and the items handed out
    /// are those before `next` on it.
    pub closed spec fn items_wf(&self) -> bool {
        &&& self.next <= self.page@.len() <= self.listed@.len() <= u64::MAX
        &&& self.closed == self.listed@.len() - self.page@.len() + self.next
        &&& forall|k: int| 0 <= k < self.page@.len()
            ==> (#[trigger] self.page@[k])@ == self.listed@[self.listed@.len() - self.page@.len() + k]
    }

    pub open spec fn wf(&self) -> bool {
        &&& self.items_wf()
        &&& self@.closed <= self@.listed.len()
        &&& match self@.phase {
            Phase::Configuring | Phase::SelectingInstallation | Phase::ExchangingToken =>
                self@.listed.len() == 0 && self@.closed == 0 && !self@.has_next,
            Phase::Listing => self@.closed == self@.listed.len(),
            Phase::Closing => self@.closed > 0,
            Phase::Done => self@.closed == self@.listed.len() && !self@.has_next,
        }
    }

    /// A closer for the repository `owner/repo`, waiting for its configuration.
    pub fn new(owner: String, repo: String) -> (r: Closer)
        ensures
            r.wf(),
            r@ == (CloserView {
                phase: Phase::Configuring,
                owner: owner@,
                repo: repo@,
                listed: Seq::empty(),
                closed: 0,
                has_next: false,
            }),
    {
        Closer {
            owner,
            repo,
            phase: Phase::Configuring,
            page: Vec::new(),
            next: 0,
            has_next: false,
            closed: 0,
            listed: Ghost(Seq::empty()),
        }
    }

    pub fn phase(&self) -> (r: Phase)
        ensures
            r == self@.phase,
    {
        self.phase
    }

    /// How many items were handed out to be closed so far.
    pub fn closed(&self) -> (r: u64)
        ensures
            r == self@.closed,
    {
        self.closed
    }

    /// Whether [`Closer::page_arrived`] can take a page of `len` items: the
    /// closer waits for a page, and the counter of items stays within 64 bits.
    pub fn can_take_page(&self, len: usize) -> (r: bool)
        requires
            self.wf(),
        ensures
            r == (self@.phase == Phase::Listing && self@.closed + len <= u64::MAX),
    {
        self.phase == Phase::Listing && len as u64 <= u64::MAX - self.closed
    }

    /// The configuration arrived: builds the app's credential, or stops the
    /// run with the configuration error before any request is made.
    pub fn configure(&mut self, app_id: Option<&str>, private_key: Option<&[u8]>) -> (r: Result<Action, RunError>)
        requires
            old(self).wf(),
            old(self)@.phase == Phase::Configuring,
        ensures
            final(self).wf(),
            match r {
                Ok(Action::ListInstallations { credential }) =>
                    credential_outcome(app_id, private_key, Ok(credential))
                    && final(self)@ == (CloserView { phase: Phase::SelectingInstallation, ..old(self)@ }),
                Ok(_) => false,
                Err(e) => credential_outcome(app_id, private_key, Err(e)) && final(self)@ == old(self)@,
            },
    {
        match app_credential(app_id, private_key) {
            Ok(credential) => Ok(self.authenticated(credential)),
            Err(e) => Err(e),
        }
    }

    /// The app's credential is at hand: list the app's installations with it.
    pub fn authenticated(&mut self, credential: String) -> (r: Action)
        requires
            old(self).wf(),
            old(self)@.phase == Phase::Configuring,
        ensures
            final(self).wf(),
            r@ == (ActionView::ListInstallations { credential: credential@ }),
            final(self)@ == (CloserView { phase: Phase::SelectingInstallation, ..old(self)@ }),
    {
        self.phase = Phase::SelectingInstallation;
        Action::ListInstallations { credential }
    }

    /// The app's installations arrived: picks the first one that is installed
    /// on the repository's owner and can issue tokens, and asks for a token
    /// scoped to the repository alone. Without one the run stops with
    /// `NoInstallation`.
    pub fn choose_installation(&mut self, installations: &Vec<Installation>) -> (r: Result<Action, RunError>)
        requires
            old(self).wf(),
            old(self)@.phase == Phase::SelectingInstallation,
        ensures
            final(self).wf(),
            r is Ok <==> exists|i: int| 0 <= i < installations@.len() && usable(#[trigger] installations@[i], old(self)@.owner),
            match r {
                Ok(Action::CreateToken { url, repositories }) =>
                    (exists|i: int| 0 <= i < installations@.len()
                        && usable(#[trigger] installations@[i], old(self)@.owner)
                        && (forall|j: int| 0 <= j < i ==> !usable(#[trigger] installations@[j], old(self)@.owner))
                        && installations@[i].access_tokens_url == Some(url))
                    && repositories@.map_values(|s: String| s@) == seq![old(self)@.repo]
                    && final(self)@ == (CloserView { phase: Phase::ExchangingToken, ..old(self)@ }),
                Ok(_) => false,
                Err(e) => e is NoInstallation && final(self)@ == old(self)@,
            },
    {
        let mut i: usize = 0;
        while i < installations.len()
            invariant
                i <= installations@.len(),
                self.wf(),
                self@ == old(self)@,
                self@.phase == Phase::SelectingInstallation,
                forall|j: int| 0 <= j < i ==> !usable(#[trigger] installations@[j], self@.owner),
            decreases installations@.len() - i,
        {
            let inst = &installations[i];
            if inst.account == self.owner {
                match &inst.access_tokens_url {
                    Some(url) => {
                        let url = url.clone();
                        let repositories = vec![self.repo.clone()];
                        assert(repositories@.map_values(|s: String| s@) =~= seq![self@.repo]);
                        assert(usable(installations@[i as int], self@.owner));
                        self.phase = Phase::ExchangingToken;
                        return Ok(Action::CreateToken { url, repositories });
                    },
                    None => {},
                }
            }
            i = i + 1;
        }
        Err(RunError::NoInstallation)
    }

    /// The scoped token arrived: list the open items.
    pub fn token_issued(&mut self) -> (r: Action)
        requires
            old(self).wf(),
            old(self)@.phase == Phase::ExchangingToken,
        ensures
            final(self).wf(),
            r is ListOpen,
            final(self)@ == (CloserView { phase: Phase::Listing, ..old(self)@ }),
    {
        self.phase = Phase::Listing;
        Action::ListOpen
    }

    /// A page of open items arrived; see [`receive_page`].
    pub fn page_arrived(&mut self, page: Page) -> (r: Action)
        requires
            old(self).wf(),
            old(self)@.phase == Phase::Listing,
            old(self)@.closed + page.items@.len() <= u64::MAX,
        ensures
            final(self).wf(),
            (final(self)@, r@) == receive_page(old(self)@, page@.items, page@.has_next),
    {
        let ghost before = self@;
        let Page { items, has_next } = page;
        self.listed = Ghost(self.listed@ + items_view(items@));
        self.page = items;
        self.next = 0;
        self.has_next = has_next;
        assert(self@ == (CloserView { listed: before.listed + items_view(items@), has_next: has_next, ..before }));
        self.advance()
    }

    /// The item last handed out was closed; see [`advance`].
    pub fn item_closed(&mut self) -> (r: Action)
        requires
            old(self).wf(),
            old(self)@.phase == Phase::Closing,
        ensures
            final(self).wf(),
            (final(self)@, r@) == advance(old(self)@),
    {
        self.advance()
    }

    fn advance(&mut self) -> (r: Action)
        requires
            old(self).items_wf(),
            old(self)@.closed <= old(self)@.listed.len(),
        ensures
            final(self).wf(),
            (final(self)@, r@) == advance(old(self)@),
    {
        if self.next < self.page.len() {
            let ghost k = self.listed@.len() - self.page@.len() + self.next;
            assert(self.page@[self.next as int]@ == self.listed@[k]);
            let item = &self.page[self.next];
            let counter = self.closed + 1;
            let line = log_line(counter, item.number, item.pull_request, item.title.as_str());
            let number = item.number;
            self.next = self.next + 1;
            self.closed = counter;
            self.phase = Phase::Closing;
            Action::Close { number, line }
        } else if self.has_next {
            self.phase = Phase::Listing;
            Action::FetchNext
        } else {
            self.phase = Phase::Done;
            Action::Finished
        }
    }
}

} // verus!
