//! The settings screen: tabs along the top, and what a key or a click does to them.

use vstd::prelude::*;
use vstd::string::*;

verus! {

/// The state of the settings screen.
pub struct App {
    pub active_tab: usize,
    pub tab_titles: Vec<&'static str>,
}

/// A key, as far as the settings screen tells keys apart.
#[derive(Clone, Copy, Debug, PartialEq, Eq, Structural)]
pub enum KeyCode {
    Char(char),
    Esc,
    Tab,
    Other,
}

/// What the terminal reports to the settings screen.
#[derive(Clone, Copy, Debug, PartialEq, Eq, Structural)]
pub enum Event {
    Key(KeyCode),
    LeftClick { column: u16, row: u16 },
    Other,
}

/// What the loop of the settings screen does next.
pub enum Step<E> {
    /// Draw a frame.
    Draw,
    /// Read what the terminal reports.
    Read,
    /// Return this.
    Done(Result<(), E>),
}

/// How a step of the loop has ended.
pub enum Outcome<E> {
    Drawn,
    Read(Event),
    Failed(E),
}

/// The loop of the settings screen, from its opening on.
pub struct RunLoop<E> {
    pub app: App,
    pub step: Step<E>,
}

/// Whether the settings screen stays open.
#[derive(Clone, Copy, Debug, PartialEq, Eq, Structural)]
pub enum Flow {
    Continue,
    Quit,
}

/// A rectangle of character cells.
#[derive(Clone, Copy, Debug, PartialEq, Eq, Structural)]
pub struct Area {
    pub x: u16,
    pub y: u16,
    pub width: u16,
    pub height: u16,
}

impl Area {
    /// The rectangle ends where a screen may end.
    pub open spec fn wf(self) -> bool {
        &&& self.x + self.width <= u16::MAX
        &&& self.y + self.height <= u16::MAX
    }

    /// The first `n` rows of the rectangle.
    pub open spec fn first_rows(self, n: u16) -> Area {
        Area { height: n, ..self }
    }

    /// The rectangle without its first `n` rows.
    pub open spec fn rows_from(self, n: u16) -> Area {
        Area { y: (self.y + n) as u16, height: (self.height - n) as u16, ..self }
    }
}

/// How many rows the tab bar takes: the titles between the lines of the frame.
pub const BAR_HEIGHT: u16 = 3;

/// How many rows the tab bar has on `screen`.
pub open spec fn bar_rows(screen: Area) -> u16 {
    if screen.height < BAR_HEIGHT {
        screen.height
    } else {
        BAR_HEIGHT
    }
}

/// What the settings screen shows, and where: the tab bar in its frame, and below it the page of the
/// active tab in a frame of its own.
pub struct Screen {
    pub bar_area: Area,
    pub bar_title: &'static str,
    pub tabs: Vec<&'static str>,
    pub selected: usize,
    pub page_area: Area,
    pub page_title: &'static str,
    pub page: &'static str,
}

/// Columns that a tab takes: its title with a blank on either side.
pub open spec fn tab_width(title: &str) -> int {
    title.spec_bytes().len() as int + 2
}

/// First column of tab `i`: the frame takes column 0, and a divider stands between two tabs.
pub open spec fn tab_start(titles: Seq<&'static str>, i: int) -> int
    decreases i,
{
    if i <= 0 {
        1
    } else {
        tab_start(titles, i - 1) + tab_width(titles[i - 1]) + 1
    }
}

/// Whether tab `i` covers column `col`.
pub open spec fn on_tab(titles: Seq<&'static str>, i: int, col: int) -> bool {
    &&& 0 <= i < titles.len()
    &&& tab_start(titles, i) <= col < tab_start(titles, i) + tab_width(titles[i])
}

/// The tab after `active`, and the first one after the last.
pub open spec fn next_tab(active: int, count: int) -> int {
    (active + 1) % count
}

/// The tab that is active after `presses` presses of the Tab key.
pub open spec fn tab_after(active: int, count: int, presses: nat) -> int
    decreases presses,
{
    if presses == 0 {
        active
    } else {
        next_tab(tab_after(active, count, (presses - 1) as nat), count)
    }
}

/// Whether `event` closes the settings screen: the key `q`, or Esc.
pub open spec fn quits(event: Event) -> bool {
    event == Event::Key(KeyCode::Char('q')) || event == Event::Key(KeyCode::Esc)
}

/// What the page of tab `active` says.
pub open spec fn page_text(active: int) -> Seq<char> {
    if active == 0 {
        "General settings (TODO)"@
    } else if active == 1 {
        "Authentication settings (TODO)"@
    } else {
        ""@
    }
}

impl App {
    /// All tabs fit on a screen line.
    pub open spec fn fits(self) -> bool {
        tab_start(self.tab_titles@, self.tab_titles.len() as int) <= u16::MAX
    }

    /// One of the tabs is active, and all of them fit on a screen line.
    pub open spec fn wf(self) -> bool {
        &&& self.active_tab < self.tab_titles.len()
        &&& self.fits()
    }

    /// Whether `next` is this screen after a left click at `col`, `row`: the tabs are those they
    /// were, and the active one is the tab under the pointer, if the click was on the line of the
    /// titles and on a tab.
    pub open spec fn clicked(self, next: App, col: u16, row: u16) -> bool {
        &&& next.tab_titles@ == self.tab_titles@
        &&& forall|i: int|
            row == 1 && #[trigger] on_tab(self.tab_titles@, i, col as int) ==> next.active_tab == i
        &&& (row != 1 || forall|i: int| !#[trigger] on_tab(self.tab_titles@, i, col as int))
            ==> next.active_tab == self.active_tab
    }

    /// Whether `next` is this screen after `event`: Tab goes on to the next tab, a left click goes to
    /// the tab under the pointer, and nothing else has an effect.
    pub open spec fn reacted(self, next: App, event: Event) -> bool {
        &&& next.tab_titles@ == self.tab_titles@
        &&& match event {
            Event::Key(KeyCode::Tab) => next.active_tab == next_tab(
                self.active_tab as int,
                self.tab_titles.len() as int,
            ),
            Event::LeftClick { column, row } => self.clicked(next, column, row),
            _ => next.active_tab == self.active_tab,
        }
    }

    /// The screen as it opens: two tabs, the first one active.
    pub fn new() -> (r: App)
        ensures
            r.wf(),
            r.active_tab == 0,
            r.tab_titles@ == seq!["General", "Auth"],
    {
        let tab_titles: Vec<&'static str> = vec!["General", "Auth"];
        proof {
            reveal_strlit("General");
            reveal_strlit("Auth");
            assert("General".is_ascii());
            assert("Auth".is_ascii());
            reveal_with_fuel(tab_start, 3);
            assert(tab_titles@ =~= seq!["General", "Auth"]);
        }
        App { active_tab: 0, tab_titles }
    }

    /// Answers one report of the terminal. `q` and Esc close the screen, Tab goes on to the next
    /// tab, a left click goes to the tab under the pointer, and nothing else has an effect.
    pub fn handle_event(&mut self, event: Event) -> (flow: Flow)
        requires
            old(self).wf(),
        ensures
            final(self).wf(),
            flow == (if quits(event) {
                Flow::Quit
            } else {
                Flow::Continue
            }),
            flow == Flow::Quit <==> (event matches Event::Key(code) && (code == KeyCode::Esc || code
                == KeyCode::Char('q'))),
            old(self).reacted(*final(self), event),
    {
        match event {
            Event::Key(KeyCode::Char(c)) => if c == 'q' {
                Flow::Quit
            } else {
                Flow::Continue
            },
            Event::Key(KeyCode::Esc) => Flow::Quit,
            Event::Key(KeyCode::Tab) => {
                self.active_tab = (self.active_tab + 1) % self.tab_titles.len();
                Flow::Continue
            },
            Event::LeftClick { column, row } => {
                handle_click(self, column, row);
                Flow::Continue
            },
            _ => Flow::Continue,
        }
    }

    /// What there is to show on `area`: the tab bar at the top, and the page on the rows below it. On
    /// an area that is too low for the bar, the bar has all the rows there are.
    pub fn screen(&self, area: Area) -> (r: Screen)
        requires
            self.active_tab < self.tab_titles.len(),
            area.wf(),
        ensures
            self.shown(r),
            r.bar_area == area.first_rows(bar_rows(area)),
            r.page_area == area.rows_from(bar_rows(area)),
    {
        let (bar_area, page_area) = split_rows(area, BAR_HEIGHT, 0);
        self.screen_in(bar_area, page_area)
    }

    /// Whether `screen` shows this state, wherever its parts are.
    pub open spec fn shown(self, screen: Screen) -> bool {
        &&& screen.bar_title@ == "romoto config"@
        &&& screen.tabs@ == self.tab_titles@
        &&& screen.selected == self.active_tab
        &&& screen.page_title == self.tab_titles[self.active_tab as int]
        &&& screen.page@ == page_text(self.active_tab as int)
    }

    /// What there is to show, with the tab bar and the page in the given areas.
    pub fn screen_in(&self, bar_area: Area, page_area: Area) -> (r: Screen)
        requires
            self.active_tab < self.tab_titles.len(),
        ensures
            self.shown(r),
            r.bar_area == bar_area,
            r.page_area == page_area,
    {
        let page = match self.active_tab {
            0 => "General settings (TODO)",
            1 => "Authentication settings (TODO)",
            _ => "",
        };
        let mut tabs: Vec<&'static str> = Vec::new();
        let mut i: usize = 0;
        while i < self.tab_titles.len()
            invariant
                i <= self.tab_titles.len(),
                tabs@ == self.tab_titles@.take(i as int),
            decreases self.tab_titles.len() - i,
        {
            tabs.push(self.tab_titles[i]);
            i += 1;
            assert(tabs@ =~= self.tab_titles@.take(i as int));
        }
        assert(tabs@ =~= self.tab_titles@);
        Screen {
            bar_area,
            bar_title: "romoto config",
            tabs,
            selected: self.active_tab,
            page_area,
            page_title: self.tab_titles[self.active_tab],
            page,
        }
    }
}

impl<E> Step<E> {
    /// The step after this one, which has ended with `outcome`. A frame is drawn before each read,
    /// the loop ends well at a report that closes the screen, and it ends with the first error. An
    /// outcome that is out of turn changes nothing.
    pub open spec fn after(self, outcome: Outcome<E>) -> Step<E> {
        match (self, outcome) {
            (Step::Draw, Outcome::Drawn) => Step::Read,
            (Step::Read, Outcome::Read(event)) => if quits(event) {
                Step::Done(Ok(()))
            } else {
                Step::Draw
            },
            (Step::Draw, Outcome::Failed(e)) => Step::Done(Err(e)),
            (Step::Read, Outcome::Failed(e)) => Step::Done(Err(e)),
            _ => self,
        }
    }

    /// The step after each of `outcomes` in turn.
    pub open spec fn after_all(self, outcomes: Seq<Outcome<E>>) -> Step<E>
        decreases outcomes.len(),
    {
        if outcomes.len() == 0 {
            self
        } else {
            self.after_all(outcomes.drop_last()).after(outcomes.last())
        }
    }
}

impl<E> RunLoop<E> {
    /// The loop as the screen opens: a frame is to be drawn.
    pub fn new() -> (r: RunLoop<E>)
        ensures
            r.app.wf(),
            r.app.active_tab == 0,
            r.app.tab_titles@ == seq!["General", "Auth"],
            r.step == Step::<E>::Draw,
    {
        RunLoop { app: App::new(), step: Step::Draw }
    }

    /// Takes note of how the step that was due has ended. A report that was read goes to the screen.
    pub fn handle(&mut self, outcome: Outcome<E>)
        requires
            old(self).app.wf(),
        ensures
            final(self).app.wf(),
            final(self).step == old(self).step.after(outcome),
            match (old(self).step, outcome) {
                (Step::Read, Outcome::Read(event)) => old(self).app.reacted(
                    final(self).app,
                    event,
                ),
                _ => final(self).app == old(self).app,
            },
    {
        match outcome {
            Outcome::Drawn => {
                if let Step::Draw = self.step {
                    self.step = Step::Read;
                }
            },
            Outcome::Read(event) => {
                if let Step::Read = self.step {
                    match self.app.handle_event(event) {
                        Flow::Quit => {
                            self.step = Step::Done(Ok(()));
                        },
                        Flow::Continue => {
                            self.step = Step::Draw;
                        },
                    }
                }
            },
            Outcome::Failed(e) => match self.step {
                Step::Done(_) => {},
                _ => {
                    self.step = Step::Done(Err(e));
                },
            },
        }
    }
}

/// How many frames are drawn in the course of `outcomes`.
pub open spec fn frames<E>(outcomes: Seq<Outcome<E>>) -> nat
    decreases outcomes.len(),
{
    if outcomes.len() == 0 {
        0
    } else {
        let before = outcomes.drop_last();
        frames(before) + if Step::<E>::Draw.after_all(before) is Draw && outcomes.last() is Drawn {
            1nat
        } else {
            0
        }
    }
}

/// How many reports are read in the course of `outcomes`.
pub open spec fn reads<E>(outcomes: Seq<Outcome<E>>) -> nat
    decreases outcomes.len(),
{
    if outcomes.len() == 0 {
        0
    } else {
        let before = outcomes.drop_last();
        reads(before) + if Step::<E>::Draw.after_all(before) is Read && outcomes.last() is Read {
            1nat
        } else {
            0
        }
    }
}

/// The course of the loop while every draw and every read succeeds and the terminal reports
/// `events`.
pub open spec fn course<E>(events: Seq<Event>) -> Seq<Outcome<E>> {
    Seq::new(
        2 * events.len(),
        |i: int|
            if i % 2 == 0 {
                Outcome::Drawn
            } else {
                Outcome::Read(events[i / 2])
            },
    )
}

/// Whether `k` is the position of the first of `events` that closes the screen; their number, if
/// none does.
pub open spec fn first_quit(events: Seq<Event>, k: int) -> bool {
    &&& 0 <= k <= events.len()
    &&& forall|j: int| 0 <= j < k ==> !quits(#[trigger] events[j])
    &&& k < events.len() ==> quits(events[k])
}

/// How many of `height` rows the upper of two parts has that should have `top`, where the lower one
/// comes first in having at least `rest`.
pub open spec fn upper_rows(height: u16, top: u16, rest: u16) -> u16 {
    if top + rest <= height {
        top
    } else if rest <= height {
        (height - rest) as u16
    } else {
        0
    }
}

/// Splits `area` into two parts, one above the other, by `ratatui::layout::Layout::vertical` with
/// the constraints `Length(top)` and `Min(rest)`, and `Layout::split`. Both parts have the columns
/// of `area`, and together they have its rows: the first part has `top` rows and the second what is
/// left, unless the rows are too few. The second part then gets its `rest` rows first, since `Min`
/// goes before `Length`. `split` reads the number in `Min` as one of type `i16`.
#[verifier::external_body]
fn split_rows(area: Area, top: u16, rest: u16) -> (r: (Area, Area))
    requires
        area.wf(),
        rest <= i16::MAX,
    ensures
        r.0 == area.first_rows(upper_rows(area.height, top, rest)),
        r.1 == area.rows_from(upper_rows(area.height, top, rest)),
{
    let Area { x, y, width, height } = area;
    let parts = ratatui::layout::Layout::vertical([
        ratatui::layout::Constraint::Length(top),
        ratatui::layout::Constraint::Min(rest),
    ]).split(ratatui::layout::Rect { x, y, width, height });
    let (a, b) = (parts[0], parts[1]);
    (
        Area { x: a.x, y: a.y, width: a.width, height: a.height },
        Area { x: b.x, y: b.y, width: b.width, height: b.height },
    )
}

/// A tab starts after every tab before it has ended.
proof fn lemma_tabs_in_order(titles: Seq<&'static str>, i: int, j: int)
    requires
        0 <= i < j <= titles.len(),
    ensures
        tab_start(titles, i) + tab_width(titles[i]) < tab_start(titles, j),
    decreases j - i,
{
    if i + 1 < j {
        lemma_tabs_in_order(titles, i, j - 1);
    }
}

/// Activates the tab under a left click at column `col` and row `row`.
pub fn handle_click(app: &mut App, col: u16, row: u16)
    requires
        old(app).fits(),
    ensures
        old(app).wf() ==> final(app).wf(),
        old(app).clicked(*final(app), col, row),
{
    if row != 1 {
        return;
    }
    let ghost titles = app.tab_titles@;
    let mut x: u16 = 1;
    let mut i: usize = 0;
    while i < app.tab_titles.len()
        invariant
            row == 1,
            titles == app.tab_titles@,
            *app == *old(app),
            app.fits(),
            i <= titles.len(),
            x == tab_start(titles, i as int),
            forall|j: int| 0 <= j < i ==> !#[trigger] on_tab(titles, j, col as int),
        decreases titles.len() - i,
    {
        proof {
            lemma_tabs_in_order(titles, i as int, titles.len() as int);
        }
        let tab_width: u16 = app.tab_titles[i].len() as u16 + 2;
        if col >= x && col < x + tab_width {
            assert(on_tab(titles, i as int, col as int));
            assert forall|j: int| #[trigger] on_tab(titles, j, col as int) implies j == i by {
                law_one_tab_per_column(titles, i as int, j, col as int);
            }
            app.active_tab = i;
            return;
        }
        x += tab_width + 1;
        i += 1;
    }
}

/// No column belongs to two tabs, so a click never has a choice.
pub proof fn law_one_tab_per_column(titles: Seq<&'static str>, i: int, j: int, col: int)
    requires
        on_tab(titles, i, col),
        on_tab(titles, j, col),
    ensures
        i == j,
{
    if i < j {
        lemma_tabs_in_order(titles, i, j);
    } else if j < i {
        lemma_tabs_in_order(titles, j, i);
    }
}

/// The row on which clicks count is the row of the titles: on a screen that has room for the tab
/// bar, row 1 lies inside the bar's frame, and no other row does.
pub proof fn law_titles_are_on_clickable_row(screen: Area, row: u16)
    requires
        screen.y == 0,
        screen.height >= BAR_HEIGHT,
    ensures
        ({
            let bar = screen.first_rows(bar_rows(screen));
            bar.y < row < bar.y + bar.height - 1 <==> row == 1
        }),
{
}

/// The settings screen closes at the first `q` or Esc and not before. Up to that report a frame is
/// drawn before each read, so as many frames are drawn as reports are read; from then on nothing is
/// drawn or read. `n` is how many steps have ended, and without such a report the loop goes on.
pub proof fn law_screen_closes_at_first_quit<E>(events: Seq<Event>, k: int, n: int)
    requires
        first_quit(events, k),
        0 <= n <= 2 * events.len(),
    ensures
        ({
            let so_far = course::<E>(events).take(n);
            let step = Step::<E>::Draw.after_all(so_far);
            if n <= 2 * k + 1 {
                &&& step == (if n % 2 == 0 {
                    Step::<E>::Draw
                } else {
                    Step::<E>::Read
                })
                &&& frames(so_far) == (n + 1) / 2
                &&& reads(so_far) == n / 2
            } else {
                &&& step == Step::<E>::Done(Ok(()))
                &&& frames(so_far) == k + 1
                &&& reads(so_far) == k + 1
            }
        }),
    decreases n,
{
    if n > 0 {
        let so_far = course::<E>(events).take(n);
        law_screen_closes_at_first_quit::<E>(events, k, n - 1);
        assert(so_far.drop_last() =~= course::<E>(events).take(n - 1));
        assert(so_far.last() == course::<E>(events)[n - 1]);
        if n % 2 == 0 && n <= 2 * k + 2 {
            let j = (n - 1) / 2;
            assert(j == k || j < k);
            assert(j < k ==> !quits(events[j]));
        }
    }
}

proof fn lemma_done_stays<E>(outcomes: Seq<Outcome<E>>, rest: Seq<Outcome<E>>)
    requires
        Step::<E>::Draw.after_all(outcomes) is Done,
    ensures
        Step::<E>::Draw.after_all(outcomes + rest) == Step::<E>::Draw.after_all(outcomes),
        frames(outcomes + rest) == frames(outcomes),
        reads(outcomes + rest) == reads(outcomes),
    decreases rest.len(),
{
    if rest.len() == 0 {
        assert(outcomes + rest =~= outcomes);
    } else {
        lemma_done_stays(outcomes, rest.drop_last());
        assert((outcomes + rest).drop_last() =~= outcomes + rest.drop_last());
    }
}

/// A draw or a read that fails while the screen is open ends the loop with its error at once:
/// whatever might come after it, nothing more is drawn or read.
pub proof fn law_failure_ends_loop<E>(
    events: Seq<Event>,
    k: int,
    n: int,
    e: E,
    rest: Seq<Outcome<E>>,
)
    requires
        first_quit(events, k),
        0 <= n <= 2 * events.len(),
        n <= 2 * k + 1,
    ensures
        ({
            let all = course::<E>(events).take(n).push(Outcome::Failed(e)) + rest;
            &&& Step::<E>::Draw.after_all(all) == Step::<E>::Done(Err(e))
            &&& frames(all) == (n + 1) / 2
            &&& reads(all) == n / 2
        }),
{
    let so_far = course::<E>(events).take(n);
    let failed = so_far.push(Outcome::Failed(e));
    law_screen_closes_at_first_quit::<E>(events, k, n);
    assert(failed.drop_last() =~= so_far);
    lemma_done_stays(failed, rest);
}

/// The Tab key goes round: `presses` presses move the active tab that many places on, and as many
/// presses as there are tabs lead back to the tab they started from.
pub proof fn law_tab_key_cycles(active: int, count: int, presses: nat)
    requires
        0 <= active < count,
    ensures
        tab_after(active, count, presses) == (active + presses) % count,
        tab_after(active, count, count as nat) == active,
{
    lemma_tab_after(active, count, presses);
    lemma_tab_after(active, count, count as nat);
    assert((active + count) % count == active) by (nonlinear_arith)
        requires
            0 <= active < count,
    ;
}

proof fn lemma_tab_after(active: int, count: int, presses: nat)
    requires
        0 <= active < count,
    ensures
        tab_after(active, count, presses) == (active + presses) % count,
    decreases presses,
{
    if presses == 0 {
        vstd::arithmetic::div_mod::lemma_small_mod(active as nat, count as nat);
    } else {
        lemma_tab_after(active, count, (presses - 1) as nat);
        vstd::arithmetic::div_mod::lemma_add_mod_noop(active + presses - 1, 1, count);
        vstd::arithmetic::div_mod::lemma_add_mod_noop((active + presses - 1) % count, 1, count);
        vstd::arithmetic::div_mod::lemma_mod_twice(active + presses - 1, count);
    }
}

/// Only the key `q` and Esc close the screen. No click does, nor any other report, and those keys
/// always do.
pub proof fn law_only_q_and_esc_quit(app: &mut App, event: Event, flow: Flow)
    requires
        call_ensures(App::handle_event, (app, event), flow),
        old(app).wf(),
    ensures
        match event {
            Event::Key(KeyCode::Char(c)) => flow == Flow::Quit <==> c == 'q',
            Event::Key(KeyCode::Esc) => flow == Flow::Quit,
            Event::Key(KeyCode::Tab) => flow == Flow::Continue,
            Event::Key(KeyCode::Other) => flow == Flow::Continue,
            Event::LeftClick { .. } => flow == Flow::Continue,
            Event::Other => flow == Flow::Continue,
        },
{
}

/// The Tab key moves to the next tab, and from the last one to the first. A click does what
/// `handle_click` does. Nothing else moves, and the tabs stay the same.
pub proof fn law_event_moves_tab(
    app: &mut App,
    event: Event,
    flow: Flow,
    clicked: &mut App,
    col: u16,
    row: u16,
)
    requires
        call_ensures(App::handle_event, (app, event), flow),
        call_ensures(handle_click, (clicked, col, row), ()),
        *old(clicked) == *old(app),
        old(app).wf(),
        event matches Event::LeftClick { column, row: at } ==> column == col && at == row,
    ensures
        final(app).tab_titles@ == old(app).tab_titles@,
        match event {
            Event::Key(KeyCode::Tab) => final(app).active_tab == (if old(app).active_tab + 1
                == old(app).tab_titles@.len() {
                0int
            } else {
                old(app).active_tab + 1
            }),
            Event::LeftClick { .. } => final(app).active_tab == final(clicked).active_tab,
            _ => final(app).active_tab == old(app).active_tab,
        },
{
    let n = old(app).tab_titles@.len() as int;
    let a = old(app).active_tab as int;
    if a + 1 == n {
        vstd::arithmetic::div_mod::lemma_mod_self_0(n);
    } else {
        vstd::arithmetic::div_mod::lemma_small_mod((a + 1) as nat, n as nat);
    }
    if let Event::LeftClick { .. } = event {
        if exists|i: int| row == 1 && #[trigger] on_tab(old(app).tab_titles@, i, col as int) {
            let i = choose|i: int|
                row == 1 && #[trigger] on_tab(old(app).tab_titles@, i, col as int);
            assert(final(app).active_tab == i);
            assert(final(clicked).active_tab == i);
        }
    }
}

/// Without its first tab, the others stand further left by the width of that tab and a divider.
proof fn lemma_tabs_shift(titles: Seq<&'static str>, i: int)
    requires
        0 <= i < titles.len(),
    ensures
        tab_start(titles, i + 1) == tab_start(titles.skip(1), i) + tab_width(titles[0]) + 1,
    decreases i,
{
    reveal_with_fuel(tab_start, 2);
    if i > 0 {
        lemma_tabs_shift(titles, i - 1);
        assert(titles.skip(1)[i - 1] == titles[i]);
    }
}

/// A click off the row of the titles changes nothing, nor does one in column 0. The first tab is as
/// wide as its title and two blanks, from column 1 on, and a click there activates it. A click on the
/// divider after it changes nothing. A click further right does what it would do, that much further
/// left, on a screen without the first tab. Without tabs nothing happens.
pub proof fn law_click_by_tabs(app: &mut App, rest: &mut App, col: u16, row: u16, left: u16)
    requires
        call_ensures(handle_click, (app, col, row), ()),
        call_ensures(handle_click, (rest, left, row), ()),
        old(app).fits(),
        old(rest).tab_titles@ == old(app).tab_titles@.skip(1),
        old(rest).active_tab >= old(rest).tab_titles@.len(),
        old(app).tab_titles@.len() > 0,
        col > old(app).tab_titles@[0].spec_bytes().len() + 3 ==> left == col - (
        old(app).tab_titles@[0].spec_bytes().len() + 3),
    ensures
        final(app).tab_titles@ == old(app).tab_titles@,
        ({
            let width = old(app).tab_titles@[0].spec_bytes().len() + 2;
            if row != 1 || col == 0 || col == width + 1 {
                final(app).active_tab == old(app).active_tab
            } else if col <= width {
                final(app).active_tab == 0
            } else if final(rest).active_tab < old(rest).tab_titles@.len() {
                final(app).active_tab == final(rest).active_tab + 1
            } else {
                final(app).active_tab == old(app).active_tab
            }
        }),
{
    let titles = old(app).tab_titles@;
    let others = titles.skip(1);
    let width = titles[0].spec_bytes().len() + 2;
    assert(tab_start(titles, 0) == 1);
    assert forall|i: int| #[trigger] on_tab(titles, i, col as int) implies col >= 1 && (i > 0
        ==> col > width + 1 && on_tab(others, i - 1, col - width - 1)) by {
        if i > 0 {
            lemma_tabs_shift(titles, i - 1);
            lemma_tabs_in_order(titles, 0, i);
            assert(others[i - 1] == titles[i]);
        }
    }
    assert forall|j: int| #[trigger] on_tab(others, j, col - width - 1) implies on_tab(
        titles,
        j + 1,
        col as int,
    ) by {
        lemma_tabs_shift(titles, j);
        assert(others[j] == titles[j + 1]);
    }
    if row == 1 {
        if 1 <= col <= width {
            assert(on_tab(titles, 0, col as int));
        } else if col > width + 1 {
            if exists|j: int| #[trigger] on_tab(others, j, left as int) {
                let j = choose|j: int| #[trigger] on_tab(others, j, left as int);
                assert(on_tab(titles, j + 1, col as int));
            } else {
                assert(forall|i: int| !#[trigger] on_tab(titles, i, col as int));
            }
        } else {
            assert(forall|i: int| !#[trigger] on_tab(titles, i, col as int));
        }
    }
}

/// A click on a screen without tabs changes nothing.
pub proof fn law_click_without_tabs(app: &mut App, col: u16, row: u16)
    requires
        call_ensures(handle_click, (app, col, row), ()),
        old(app).tab_titles@.len() == 0,
    ensures
        final(app).active_tab == old(app).active_tab,
        final(app).tab_titles@.len() == 0,
{
}

/// The screen has all the tabs, marks the active one, and shows its page under its title. Bar and
/// page have the columns of the screen, the bar has the first three rows or as many as there are, and
/// the page has the rows below it.
pub proof fn law_screen_shows_active_tab(app: &App, area: Area, r: Screen)
    requires
        call_ensures(App::screen, (app, area), r),
        app.active_tab < app.tab_titles@.len(),
        area.wf(),
    ensures
        r.bar_title@ == "romoto config"@,
        r.tabs@ == app.tab_titles@,
        r.selected == app.active_tab,
        r.page_title@ == app.tab_titles@[app.active_tab as int]@,
        app.active_tab == 0 ==> r.page@ == "General settings (TODO)"@,
        app.active_tab == 1 ==> r.page@ == "Authentication settings (TODO)"@,
        app.active_tab > 1 ==> r.page@.len() == 0,
        r.bar_area.x == area.x && r.bar_area.width == area.width && r.bar_area.y == area.y,
        r.page_area.x == area.x && r.page_area.width == area.width,
        r.bar_area.height <= 3,
        area.height >= 3 ==> r.bar_area.height == 3,
        r.page_area.y == r.bar_area.y + r.bar_area.height,
        r.bar_area.height + r.page_area.height == area.height,
{
    reveal_strlit("");
}

/// The same is shown wherever the two parts are put.
pub proof fn law_areas_change_nothing_shown(
    app: &App,
    area: Area,
    r: Screen,
    bar: Area,
    page: Area,
    placed: Screen,
)
    requires
        call_ensures(App::screen, (app, area), r),
        call_ensures(App::screen_in, (app, bar, page), placed),
        app.active_tab < app.tab_titles@.len(),
        area.wf(),
    ensures
        placed.bar_area == bar && placed.page_area == page,
        placed.bar_title@ == r.bar_title@ && placed.tabs@ == r.tabs@,
        placed.selected == r.selected,
        placed.page_title == r.page_title && placed.page@ == r.page@,
{
}

/// A screen opens on the first of two tabs, `General` and `Auth`, with a frame to draw.
pub proof fn law_screen_opens_on_first_tab<E>(app: App, l: RunLoop<E>)
    requires
        call_ensures(App::new, (), app),
        call_ensures(RunLoop::<E>::new, (), l),
    ensures
        app.active_tab == 0,
        app.tab_titles@ == seq!["General", "Auth"],
        l.app.active_tab == 0,
        l.app.tab_titles@ == app.tab_titles@,
        l.step is Draw,
{
}

/// How the loop gets from one step to the next. It reads only after a frame was drawn, and draws only
/// at the start and after a report that does not close the screen. It ends well only at `q` or Esc,
/// and with an error only where a draw or a read failed. Nothing else moves it, and nothing at all
/// once it has ended.
pub proof fn law_loop_steps<E>(l: &mut RunLoop<E>, outcome: Outcome<E>)
    requires
        call_ensures(RunLoop::<E>::handle, (l, outcome), ()),
        old(l).app.wf(),
    ensures
        match (old(l).step, outcome) {
            (Step::Draw, Outcome::Drawn) => final(l).step is Read,
            (Step::Draw, Outcome::Read(_)) => final(l).step is Draw,
            (Step::Draw, Outcome::Failed(e)) => final(l).step == Step::Done(Err::<(), E>(e)),
            (Step::Read, Outcome::Drawn) => final(l).step is Read,
            (Step::Read, Outcome::Read(Event::Key(KeyCode::Esc))) => final(l).step == Step::Done(
                Ok::<(), E>(()),
            ),
            (Step::Read, Outcome::Read(Event::Key(KeyCode::Char(c)))) => if c == 'q' {
                final(l).step == Step::Done(Ok::<(), E>(()))
            } else {
                final(l).step is Draw
            },
            (Step::Read, Outcome::Read(_)) => final(l).step is Draw,
            (Step::Read, Outcome::Failed(e)) => final(l).step == Step::Done(Err::<(), E>(e)),
            (Step::Done(_), _) => final(l).step == old(l).step,
        },
{
}

/// A report that the loop reads does to the screen what `handle_event` does with it, and every other
/// step leaves the screen as it is.
pub proof fn law_loop_hands_reports_on<E>(
    l: &mut RunLoop<E>,
    outcome: Outcome<E>,
    app: &mut App,
    event: Event,
    flow: Flow,
)
    requires
        call_ensures(RunLoop::<E>::handle, (l, outcome), ()),
        call_ensures(App::handle_event, (app, event), flow),
        *old(app) == old(l).app,
        old(l).app.wf(),
        outcome matches Outcome::Read(e) ==> e == event,
    ensures
        final(l).app.tab_titles@ == old(l).app.tab_titles@,
        old(l).step is Read && outcome is Read ==> final(l).app.active_tab == final(app).active_tab,
        !(old(l).step is Read && outcome is Read) ==> final(l).app == old(l).app,
{
    if let Event::LeftClick { column, row } = event {
        if exists|i: int| row == 1 && #[trigger] on_tab(old(app).tab_titles@, i, column as int) {
            let i = choose|i: int|
                row == 1 && #[trigger] on_tab(old(app).tab_titles@, i, column as int);
            assert(final(app).active_tab == i);
        }
    }
}

/// Tabs that are few and short enough fit on a line.
proof fn lemma_short_tabs_fit(titles: Seq<&'static str>, i: int, longest: int)
    requires
        0 <= i <= titles.len(),
        forall|j: int| 0 <= j < titles.len() ==> (#[trigger] titles[j]).spec_bytes().len() <= longest,
        longest >= 0,
    ensures
        1 <= tab_start(titles, i) <= 1 + i * (longest + 3),
    decreases i,
{
    if i > 0 {
        lemma_short_tabs_fit(titles, i - 1, longest);
        assert(titles[i - 1].spec_bytes().len() <= longest);
        assert((i - 1) * (longest + 3) + longest + 3 == i * (longest + 3)) by (nonlinear_arith);
    }
}

/// Every click and every report is taken on a screen whose tabs are few and short enough for a line,
/// a report only where one of the tabs is active. Such a screen can also be shown on every area.
pub proof fn law_screens_are_served(
    app: &mut App,
    event: Event,
    col: u16,
    row: u16,
    shown: &App,
    area: Area,
    longest: int,
)
    requires
        forall|j: int|
            0 <= j < old(app).tab_titles@.len() ==> (#[trigger] old(app).tab_titles@[j]).spec_bytes().len() <= longest,
        longest >= 0,
        old(app).tab_titles@.len() * (longest + 3) < 65535,
        area.x + area.width <= 65535,
        area.y + area.height <= 65535,
    ensures
        call_requires(handle_click, (app, col, row)),
        old(app).active_tab < old(app).tab_titles@.len() ==> call_requires(
            App::handle_event,
            (app, event),
        ),
        shown.active_tab < shown.tab_titles@.len() ==> call_requires(App::screen, (shown, area)),
        shown.active_tab < shown.tab_titles@.len() ==> call_requires(
            App::screen_in,
            (shown, area, area),
        ),
{
    let titles = old(app).tab_titles@;
    lemma_short_tabs_fit(titles, titles.len() as int, longest);
}

} // verus!
