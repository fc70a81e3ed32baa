use vstd::prelude::*;
use crate::text::{dec, push_decimal};

verus! {

/// How long a pager waits for a button by default, in seconds.
pub const DEFAULT_TIMEOUT_SECS: u64 = 120;

/// A paged reply: the pages (of type `E`), how long to wait for a button in seconds, whether
/// only the caller sees it, and optionally a selection menu per page (options of type `O`,
/// indexed like the pages) with its placeholder.
pub struct Pager<E, O> {
    pub embeds: Vec<E>,
    pub timeout_secs: u64,
    pub ephemeral: bool,
    pub select_options: Option<Vec<Vec<O>>>,
    pub select_placeholder: String,
}

impl<E, O> Pager<E, O> {
    /// A pager over the given pages, waiting the default time, visible to all, without menus.
    pub fn new(embeds: Vec<E>) -> (p: Self)
        ensures
            p.embeds@ == embeds@,
            p.timeout_secs == DEFAULT_TIMEOUT_SECS,
            !p.ephemeral,
            p.select_options is None,
            p.select_placeholder@ == "選択してください"@,
    {
        Pager {
            embeds,
            timeout_secs: DEFAULT_TIMEOUT_SECS,
            ephemeral: false,
            select_options: None,
            select_placeholder: String::from_str("選択してください"),
        }
    }

    /// The same pager, waiting `secs` seconds for a button.
    pub fn timeout(self, secs: u64) -> (p: Self)
        ensures
            p.timeout_secs == secs,
            p.embeds@ == self.embeds@,
            p.ephemeral == self.ephemeral,
            p.select_options == self.select_options,
            p.select_placeholder@ == self.select_placeholder@,
    {
        let mut p = self;
        p.timeout_secs = secs;
        p
    }

    /// The same pager, visible only to the caller when `ephemeral` holds.
    pub fn ephemeral(self, ephemeral: bool) -> (p: Self)
        ensures
            p.ephemeral == ephemeral,
            p.embeds@ == self.embeds@,
            p.timeout_secs == self.timeout_secs,
            p.select_options == self.select_options,
            p.select_placeholder@ == self.select_placeholder@,
    {
        let mut p = self;
        p.ephemeral = ephemeral;
        p
    }

    /// The same pager with a selection menu on each page: the options of page `i` are
    /// `options_per_page[i]`; a page with no options (or none given) shows no menu.
    pub fn with_select(self, options_per_page: Vec<Vec<O>>, placeholder: String) -> (p: Self)
        ensures
            p.select_options == Some(options_per_page),
            p.select_placeholder@ == placeholder@,
            p.embeds@ == self.embeds@,
            p.timeout_secs == self.timeout_secs,
            p.ephemeral == self.ephemeral,
    {
        let mut p = self;
        p.select_options = Some(options_per_page);
        p.select_placeholder = placeholder;
        p
    }

    /// Page `page` has options for its selection menu.
    pub open spec fn has_menu(self, page: int) -> bool {
        match self.select_options {
            Some(o) => 0 <= page < o@.len() && o@[page]@.len() > 0,
            None => false,
        }
    }

    /// How the pager opens: with no page it shows nothing; a single page without a menu is
    /// shown and not waited on; otherwise it waits for the member.
    pub fn opening(&self) -> (o: PagerOpening)
        ensures
            self.embeds@.len() == 0 ==> o == PagerOpening::NoPages,
            self.embeds@.len() > 0 && !self.has_menu(0) && self.embeds@.len() <= 1 ==> o
                == PagerOpening::ShowOnly,
            self.embeds@.len() > 0 && (self.has_menu(0) || self.embeds@.len() > 1) ==> o
                == PagerOpening::Interactive,
    {
        let total = self.embeds.len();
        if total == 0 {
            return PagerOpening::NoPages;
        }
        let c = self.components_for_page(0, total);
        if c.show_select || c.buttons.is_some() {
            PagerOpening::Interactive
        } else {
            PagerOpening::ShowOnly
        }
    }

    /// The rows shown under page `page` of `total`.
    pub fn components_for_page(&self, page: usize, total: usize) -> (c: PageComponents)
        requires
            page < total,
        ensures
            c.show_select == self.has_menu(page as int),
            total > 1 ==> (c.buttons matches Some(b) && b.view_ok(page as int, total as int)),
            total <= 1 ==> c.buttons is None,
    {
        let show_select = match &self.select_options {
            Some(o) => page < o.len() && o[page].len() > 0,
            None => false,
        };
        let buttons = if total > 1 {
            Some(button_row(page, total))
        } else {
            None
        };
        PageComponents { show_select, buttons }
    }
}

/// How a pager opens.
#[derive(Clone, Copy, PartialEq, Eq, Debug)]
pub enum PagerOpening {
    /// There is no page: nothing is shown.
    NoPages,
    /// The only page is shown, with nothing to wait for.
    ShowOnly,
    /// The first page is shown with its menu or buttons, and the pager waits.
    Interactive,
}

/// The states of the navigation buttons under a page.
pub struct ButtonRow {
    pub first_disabled: bool,
    pub prev_disabled: bool,
    pub next_disabled: bool,
    pub last_disabled: bool,
    /// The label of the middle button: `page/total`, counting from 1.
    pub label: String,
}

impl ButtonRow {
    /// The row is the one for page `page` of `total`: going back is disabled on the first
    /// page, going on on the last, and the label shows the page counting from 1.
    pub open spec fn view_ok(self, page: int, total: int) -> bool {
        &&& self.first_disabled == (page == 0)
        &&& self.prev_disabled == (page == 0)
        &&& self.next_disabled == (page >= total - 1)
        &&& self.last_disabled == (page >= total - 1)
        &&& self.label@ == dec((page + 1) as nat) + "/"@ + dec(total as nat)
    }
}

/// What is shown under a page: the selection menu, and the navigation buttons.
pub struct PageComponents {
    pub show_select: bool,
    pub buttons: Option<ButtonRow>,
}

/// The navigation buttons for page `page` of `total` (more than one) pages.
pub fn button_row(page: usize, total: usize) -> (b: ButtonRow)
    requires
        total > 1,
        page < usize::MAX,
    ensures
        b.view_ok(page as int, total as int),
{
    let mut label = String::new();
    push_decimal(&mut label, (page + 1) as u64);
    label.append("/");
    push_decimal(&mut label, total as u64);
    ButtonRow {
        first_disabled: page == 0,
        prev_disabled: page == 0,
        next_disabled: page >= total - 1,
        last_disabled: page >= total - 1,
        label,
    }
}

/// What happened while a pager waited.
#[derive(Clone, PartialEq, Eq, Debug)]
pub enum PagerEvent {
    First,
    Prev,
    Next,
    Last,
    /// An option was chosen from the menu (its value, if the interaction carried one).
    Select(Option<String>),
    /// No button was pressed in time.
    Timeout,
}

/// What a pager does after an event.
#[derive(Clone, PartialEq, Eq, Debug)]
pub enum PagerStep {
    /// Show this page and wait again.
    Show(usize),
    /// Stop, handing back the chosen value (`None` when the wait timed out).
    Finish(Option<String>),
}

/// The page that a navigation button leads to from `current` of `total` pages.
pub open spec fn next_page_of(current: int, total: int, e: PagerEvent) -> int {
    match e {
        PagerEvent::First => 0,
        PagerEvent::Prev => if current > 0 {
            current - 1
        } else {
            0
        },
        PagerEvent::Next => if current + 1 <= total - 1 {
            current + 1
        } else {
            total - 1
        },
        PagerEvent::Last => total - 1,
        _ => current,
    }
}

/// Decides what a pager showing page `current` of `total` does after an event: buttons move
/// between pages (staying within them), a choice from the menu or a timeout ends it.
pub fn pager_step(current: usize, total: usize, e: PagerEvent) -> (s: PagerStep)
    requires
        current < total,
    ensures
        match e {
            PagerEvent::Select(v) => s == PagerStep::Finish(v),
            PagerEvent::Timeout => s == PagerStep::Finish(None),
            _ => s == PagerStep::Show(next_page_of(current as int, total as int, e) as usize),
        },
{
    match e {
        PagerEvent::First => PagerStep::Show(0),
        PagerEvent::Prev => PagerStep::Show(if current > 0 {
            current - 1
        } else {
            0
        }),
        PagerEvent::Next => PagerStep::Show(if current + 1 <= total - 1 {
            current + 1
        } else {
            total - 1
        }),
        PagerEvent::Last => PagerStep::Show(total - 1),
        PagerEvent::Select(v) => PagerStep::Finish(v),
        PagerEvent::Timeout => PagerStep::Finish(None),
    }
}

/// Navigation never leaves the pages: from any page, every button leads to a page.
pub proof fn law_navigation_stays_within_pages(current: int, total: int, e: PagerEvent)
    requires
        0 <= current < total,
    ensures
        0 <= next_page_of(current, total, e) < total,
{
}

/// "Next" and "previous" undo each other away from the ends.
pub proof fn law_next_then_prev_returns(current: int, total: int)
    requires
        0 <= current,
        current + 1 < total,
    ensures
        next_page_of(next_page_of(current, total, PagerEvent::Next), total, PagerEvent::Prev) == current,
{
}

/// The custom ids of a pager's components, made from the invocation's id: first, previous,
/// page, next, last and select.
pub open spec fn pager_id_text(ctx_id: u64, suffix: Seq<char>) -> Seq<char> {
    dec(ctx_id as nat) + suffix
}

/// The custom id of one of a pager's components.
pub fn pager_id(ctx_id: u64, suffix: &str) -> (r: String)
    ensures
        r@ == pager_id_text(ctx_id, suffix@),
{
    let mut s = String::new();
    push_decimal(&mut s, ctx_id);
    s.append(suffix);
    s
}

} // verus!
