//! What the cockpit shows: the header, the roles table, the message feed or a
//! role's detail, and the key hints, as text ready to be drawn.
use vstd::prelude::*;

use crate::cockpit;
use crate::cockpit::{Cockpit, CockpitView, FeedLine, LineView, RoleRow, RowView, Status};
use crate::number;
use crate::text;
use crate::watch;

verus! {

/// The widest action a table cell shows.
pub const ACTION_WIDTH: usize = 48;

/// The title that leads the header line.
pub const TITLE: &'static str = "crew top ";

/// The key hints of the overview.
pub const OVERVIEW_HINTS: &'static str =
    "up/down select  Enter drill-in  f filter role  c cycle channel  x clear  q quit";

/// The key hints of the detail view.
pub const DETAIL_HINTS: &'static str = "Esc/Enter back  q quit";

/// One role's cells in the table.
#[derive(Debug, PartialEq, Eq)]
pub struct RoleCells {
    /// The role, marked where it is paused.
    pub role: String,
    /// Its status.
    pub status: Status,
    /// Its current action, cut to the column.
    pub action: String,
    /// Its tokens.
    pub tokens: String,
    /// Its cost.
    pub cost: String,
    /// Whether the row is the selected one.
    pub selected: bool,
}

/// One line of the feed, in the parts it is drawn in.
#[derive(Debug, PartialEq, Eq)]
pub struct FeedCells {
    /// The channel and a space.
    pub channel: String,
    /// The sender.
    pub from: String,
    /// The kind and the summary.
    pub rest: String,
}

/// A role's detail.
#[derive(Debug, PartialEq, Eq)]
pub struct Detail {
    /// The role and a space.
    pub role: String,
    /// Its status.
    pub status: Status,
    /// Its tokens, cost, and lane.
    pub spend: String,
    /// What it is doing now.
    pub now: String,
    /// Its recent activity, newest last.
    pub activity: Vec<String>,
}

/// The header line, after the title.
pub open spec fn header_line(c: CockpitView) -> Seq<char> {
    let rows = c.ordered();
    number::decimal(cockpit::live_rows(rows) as nat) + " live / "@ + number::decimal(
        c.names().len(),
    ) + " roles  "@ + c.standing + "  "@ + number::decimal(
        cockpit::held_u64(cockpit::total_tokens(rows)) as nat,
    ) + " tokens  "@ + watch::dollars_text(
        cockpit::held_u64(cockpit::total_cost(rows)) as u64,
    ) + "  filter: "@ + (match c.filter {
        cockpit::FilterView::All => "all"@,
        cockpit::FilterView::Role(role) => "role:"@ + role,
        cockpit::FilterView::Channel(channel) => "channel:"@ + channel,
    })
}

/// The header line, after the title: the live count, the crew standing, and the
/// aggregate spend.
pub fn header(c: &Cockpit) -> (r: String)
    requires
        c.wf(),
    ensures
        r@ == header_line(c@),
{
    let (tokens, cost) = c.aggregate();
    number::decimal_usize(c.live_count()).concat(" live / ").concat(
        number::decimal_usize(c.role_count()).as_str(),
    ).concat(" roles  ").concat(c.standing()).concat("  ").concat(
        number::decimal_u64(tokens).as_str(),
    ).concat(" tokens  ").concat(watch::dollars(cost).as_str()).concat("  filter: ").concat(
        c.filter_label().as_str(),
    )
}

/// A role's label, marking a paused role.
pub open spec fn label_of(row: RowView) -> Seq<char> {
    if row.paused {
        row.role + " (paused)"@
    } else {
        row.role
    }
}

/// A role's label, marking a paused role so its brake is visible.
pub fn role_label(row: &RoleRow) -> (r: String)
    ensures
        r@ == label_of(row@),
{
    if row.paused {
        row.role.as_str().to_owned().concat(" (paused)")
    } else {
        row.role.as_str().to_owned()
    }
}

/// Text cut to `max` characters, the last of them an ellipsis where it is cut.
pub open spec fn cell_text(s: Seq<char>, max: int) -> Seq<char> {
    if s.len() <= max {
        s
    } else {
        s.take(if max > 0 { max - 1 } else { 0 }).push('\u{2026}')
    }
}

/// Truncates a cell to `max` characters with an ellipsis, so a long action does
/// not blow out the column.
pub fn elide_cell(s: &str, max: usize) -> (r: String)
    ensures
        r@ == cell_text(s@, max as int),
{
    if s.unicode_len() <= max {
        return s.to_owned();
    }
    let keep: usize = if max > 0 {
        max - 1
    } else {
        0
    };
    let mut out = s.substring_char(0, keep).to_owned();
    out.push('\u{2026}');
    assert(out@ =~= cell_text(s@, max as int));
    out
}

/// `s` if non-empty, else `fallback`.
pub fn short(s: &str, fallback: &str) -> (r: String)
    ensures
        r@ == (if s@.len() == 0 {
            fallback@
        } else {
            s@
        }),
{
    if s.is_empty() {
        fallback.to_owned()
    } else {
        s.to_owned()
    }
}

/// Whether the cells show a row.
pub open spec fn cells_show(cells: RoleCells, row: RowView, selected: bool) -> bool {
    &&& cells.role@ == label_of(row)
    &&& cells.status == row.status
    &&& cells.action@ == cell_text(row.action, ACTION_WIDTH as int)
    &&& cells.tokens@ == number::decimal(row.tokens as nat)
    &&& cells.cost@ == watch::dollars_text(row.cost_micro_usd)
    &&& cells.selected == selected
}

/// The roles table: each role's status, current action, tokens, and cost, with
/// the selected row marked.
pub fn roles_table(c: &Cockpit) -> (r: Vec<RoleCells>)
    requires
        c.wf(),
    ensures
        r@.len() == c@.ordered().len(),
        forall|i: int|
            0 <= i < r@.len() ==> cells_show(
                #[trigger] r@[i],
                c@.ordered()[i],
                i == c@.position(),
            ),
{
    let selected: usize = c.selected();
    let rows = c.roles();
    let ghost all = c@.ordered();
    let mut out: Vec<RoleCells> = Vec::new();
    let mut i: usize = 0;
    while i < rows.len()
        invariant
            i <= rows.len(),
            cockpit::rows_of(rows@) == all,
            selected == c@.position(),
            out@.len() == i,
            forall|j: int|
                0 <= j < i ==> cells_show(#[trigger] out@[j], all[j], j == c@.position()),
        decreases rows.len() - i,
    {
        let row = rows[i];
        assert(all[i as int] == row@);
        out.push(
            RoleCells {
                role: role_label(row),
                status: row.status,
                action: elide_cell(row.action.as_str(), ACTION_WIDTH),
                tokens: number::decimal_u64(row.tokens),
                cost: watch::dollars(row.cost_micro_usd),
                selected: i == selected,
            },
        );
        i = i + 1;
    }
    out
}

/// Where the newest lines that fit a bordered pane of `height` start, in a list
/// of `len`.
pub open spec fn window_start(len: int, height: u16) -> int {
    let capacity = if height <= 3 {
        1int
    } else {
        height - 2
    };
    if len > capacity {
        len - capacity
    } else {
        0
    }
}

/// Where the newest lines that fit a bordered pane of `height` start, in a list
/// of `len`.
pub fn visible_from(len: usize, height: u16) -> (r: usize)
    ensures
        r == window_start(len as int, height),
        r <= len,
{
    let capacity: usize = if height <= 3 {
        1
    } else {
        (height - 2) as usize
    };
    if len > capacity {
        len - capacity
    } else {
        0
    }
}

/// Whether the cells show a feed line.
pub open spec fn feed_cells_show(cells: FeedCells, line: LineView) -> bool {
    &&& cells.channel@ == line.channel + " "@
    &&& cells.from@ == line.from
    &&& cells.rest@ == " ("@ + line.kind + "): "@ + line.summary
}

/// The cells of one feed line.
fn feed_cells(line: &FeedLine) -> (r: FeedCells)
    ensures
        feed_cells_show(r, line@),
{
    FeedCells {
        channel: line.channel.clone().concat(" "),
        from: line.from.clone(),
        rest: " (".to_owned().concat(line.kind).concat("): ").concat(line.summary.as_str()),
    }
}

/// The message feed: the most recent lines that fit a pane of `height`, newest
/// at the bottom.
pub fn feed_list(c: &Cockpit, height: u16) -> (r: Vec<FeedCells>)
    ensures
        ({
            let shown = c@.shown();
            let start = window_start(shown.len() as int, height);
            &&& r@.len() == shown.len() - start
            &&& forall|i: int|
                0 <= i < r@.len() ==> feed_cells_show(#[trigger] r@[i], shown[start + i])
        }),
{
    let feed = c.feed();
    let ghost shown = c@.shown();
    assert(shown.len() == feed@.len());
    let start: usize = visible_from(feed.len(), height);
    let mut out: Vec<FeedCells> = Vec::new();
    let mut i: usize = start;
    while i < feed.len()
        invariant
            start <= i <= feed.len(),
            cockpit::lines_seen(feed@) == shown,
            out@.len() == i - start,
            forall|j: int|
                0 <= j < out@.len() ==> feed_cells_show(#[trigger] out@[j], shown[start + j]),
        decreases feed.len() - i,
    {
        assert(shown[i as int] == feed@[i as int]@);
        out.push(feed_cells(feed[i]));
        i = i + 1;
    }
    out
}

/// Whether a detail shows a row and its recent activity.
pub open spec fn detail_shows(d: Detail, row: RowView, log: Seq<Seq<char>>, height: u16) -> bool {
    let start = window_start(log.len() as int, height);
    &&& d.role@ == row.role + " "@
    &&& d.status == row.status
    &&& d.spend@ == "  "@ + number::decimal(row.tokens as nat) + " tokens  "@ + watch::dollars_text(
        row.cost_micro_usd,
    ) + "  lane: "@ + (if row.owned_paths.len() == 0 {
        "no lane"@
    } else {
        text::joined(row.owned_paths, ", "@)
    })
    &&& d.now@ == "now: "@ + (if row.action.len() == 0 {
        "idle"@
    } else {
        row.action
    })
    &&& text::texts(d.activity@) == log.skip(start)
}

/// The drill-in detail of the selected role, its activity held to a pane of
/// `height`; nothing where no role is selected.
pub fn detail(c: &Cockpit, height: u16) -> (r: Option<Detail>)
    requires
        c.wf(),
    ensures
        match c@.chosen() {
            Some(row) => r matches Some(d) && detail_shows(d, row, c@.log_of(row.role), height),
            None => r is None,
        },
{
    let row = match c.selected_role() {
        Some(row) => row,
        None => {
            return None;
        },
    };
    let lane = if row.owned_paths.len() == 0 {
        "no lane".to_owned()
    } else {
        text::join(row.owned_paths.as_slice(), ", ")
    };
    let log = c.detail_activity();
    let ghost lines = c@.log_of(row.role@);
    assert(lines.len() == log@.len());
    let start: usize = visible_from(log.len(), height);
    let mut activity: Vec<String> = Vec::new();
    let mut i: usize = start;
    assert(text::texts(activity@) =~= lines.subrange(start as int, start as int));
    while i < log.len()
        invariant
            start <= i <= log.len(),
            cockpit::slices(log@) == lines,
            text::texts(activity@) == lines.subrange(start as int, i as int),
        decreases log.len() - i,
    {
        let ghost before = text::texts(activity@);
        assert(lines[i as int] == log@[i as int]@);
        activity.push(log[i].to_owned());
        assert(text::texts(activity@) =~= before.push(lines[i as int]));
        i = i + 1;
        assert(lines.subrange(start as int, i as int) =~= lines.subrange(
            start as int,
            i - 1,
        ).push(lines[i - 1]));
    }
    assert(lines.subrange(start as int, lines.len() as int) =~= lines.skip(start as int));
    Some(
        Detail {
            role: row.role.as_str().to_owned().concat(" "),
            status: row.status,
            spend: "  ".to_owned().concat(number::decimal_u64(row.tokens).as_str()).concat(
                " tokens  ",
            ).concat(watch::dollars(row.cost_micro_usd).as_str()).concat("  lane: ").concat(
                lane.as_str(),
            ),
            now: "now: ".to_owned().concat(short(row.action.as_str(), "idle").as_str()),
            activity,
        },
    )
}

/// The key hints for the view that is showing.
pub fn footer(c: &Cockpit) -> (r: &'static str)
    requires
        c.wf(),
    ensures
        r@ == (if c@.detail && c@.chosen() is Some {
            DETAIL_HINTS@
        } else {
            OVERVIEW_HINTS@
        }),
{
    if c.in_detail() {
        DETAIL_HINTS
    } else {
        OVERVIEW_HINTS
    }
}

/// The header leads with how many roles are live, of how many, and says how the crew
/// stands.
pub proof fn the_header_leads_with_the_live_count(
    c: Cockpit,
    live: usize,
    all: usize,
    line: String,
    filter: String,
)
    requires
        c.wf(),
        call_ensures(Cockpit::live_count, (&c,), live),
        call_ensures(Cockpit::role_count, (&c,), all),
        call_ensures(header, (&c,), line),
        call_ensures(Cockpit::filter_label, (&c,), filter),
    ensures
        (number::decimal(live as nat) + " live / "@ + number::decimal(all as nat)
            + " roles  "@).is_prefix_of(line@),
        text::mentions(line@, c@.standing),
        filter@.is_suffix_of(line@),
        c@.filter == cockpit::FilterView::All ==> filter@ == "all"@,
        c@.filter matches cockpit::FilterView::Role(role) ==> role.is_suffix_of(filter@),
        c@.filter matches cockpit::FilterView::Channel(channel) ==> channel.is_suffix_of(filter@),
{
    let rows = c@.ordered();
    let front = number::decimal(live as nat) + " live / "@ + number::decimal(all as nat)
        + " roles  "@;
    let tokens = number::decimal(cockpit::held_u64(cockpit::total_tokens(rows)) as nat);
    let cost = watch::dollars_text(cockpit::held_u64(cockpit::total_cost(rows)) as u64);
    lemma_header(front, c@.standing, "  "@, tokens, " tokens  "@, cost, "  filter: "@, filter@);
    match c@.filter {
        cockpit::FilterView::All => {},
        cockpit::FilterView::Role(role) => {
            text::lemma_pieces("role:"@, role);
        },
        cockpit::FilterView::Channel(channel) => {
            text::lemma_pieces("channel:"@, channel);
        },
    }
}

proof fn lemma_header(
    front: Seq<char>,
    standing: Seq<char>,
    gap: Seq<char>,
    tokens: Seq<char>,
    unit: Seq<char>,
    cost: Seq<char>,
    label: Seq<char>,
    filter: Seq<char>,
)
    ensures
        ({
            let all = front + standing + gap + tokens + unit + cost + label + filter;
            &&& front.is_prefix_of(all)
            &&& text::mentions(all, standing)
            &&& filter.is_suffix_of(all)
        }),
{
    let a = front + standing;
    let b = a + gap;
    let c = b + tokens;
    let d = c + unit;
    let e = d + cost;
    let f = e + label;
    text::lemma_pieces(front, standing);
    text::lemma_extends(a, gap, front);
    text::lemma_extends(b, tokens, front);
    text::lemma_extends(c, unit, front);
    text::lemma_extends(d, cost, front);
    text::lemma_extends(e, label, front);
    text::lemma_extends(f, filter, front);
    text::lemma_extends(a, gap, standing);
    text::lemma_extends(b, tokens, standing);
    text::lemma_extends(c, unit, standing);
    text::lemma_extends(d, cost, standing);
    text::lemma_extends(e, label, standing);
    text::lemma_extends(f, filter, standing);
    text::lemma_pieces(f, filter);
}

/// A role is shown by its name, marked exactly where it is paused.
pub proof fn a_pause_is_marked(row: RoleRow, label: String)
    requires
        call_ensures(role_label, (&row,), label),
    ensures
        row.paused ==> label@ == row.role@ + " (paused)"@,
        !row.paused ==> label@ == row.role@,
{
}

/// A cell never shows more than its width, nor less than fits: what fits is shown
/// whole, and of the rest as much as leaves room for the mark.
pub proof fn a_cell_shows_what_fits(s: &str, max: usize, cell: String)
    requires
        call_ensures(elide_cell, (s, max), cell),
    ensures
        s@.len() <= max ==> cell@ == s@,
        s@.len() > max && max > 0 ==> cell@.len() == max && cell@.drop_last() == s@.take(
            max - 1,
        ) && cell@.last() == '\u{2026}',
{
    if s@.len() > max && max > 0 {
        assert(cell@.drop_last() =~= s@.take(max - 1));
    }
}

/// A pane shows the newest lines that fit between its borders, and always one.
pub proof fn a_pane_shows_the_newest(len: usize, height: u16, from: usize)
    requires
        call_ensures(visible_from, (len, height), from),
    ensures
        from <= len,
        height > 2 && len <= height - 2 ==> from == 0,
        height > 2 && len > height - 2 ==> len - from == height - 2,
        height <= 2 && len > 0 ==> len - from == 1,
{
}

/// The table has a row for each role, in order, with its status, what it does, what
/// it has spent, and the selected one marked and no other.
pub proof fn the_table_shows_each_role(c: Cockpit, cells: Vec<RoleCells>, at: usize, i: int)
    requires
        c.wf(),
        call_ensures(roles_table, (&c,), cells),
        call_ensures(Cockpit::selected, (&c,), at),
        0 <= i < cells@.len(),
    ensures
        cells@.len() == c@.names().len(),
        ({
            let row = c@.rows[c@.names()[i]];
            &&& row.role.is_prefix_of(cells@[i].role@)
            &&& cells@[i].status == row.status
            &&& row.action.len() <= 48 ==> cells@[i].action@ == row.action
            &&& cells@[i].tokens@ == number::decimal(row.tokens as nat)
            &&& cells@[i].cost@ == watch::dollars_text(row.cost_micro_usd)
            &&& cells@[i].selected <==> i == at
        }),
{
    let row = c@.ordered()[i];
    assert(cells_show(cells@[i], row, i == c@.position()));
    text::lemma_pieces(row.role, " (paused)"@);
    text::lemma_pieces(row.role, Seq::empty());
    assert(row.role + Seq::<char>::empty() =~= row.role);
}

/// The feed pane ends with the newest line the filter shows, each line with its
/// channel, its sender, its kind and its summary.
pub proof fn the_feed_ends_with_the_newest(c: Cockpit, height: u16, cells: Vec<FeedCells>, i: int)
    requires
        call_ensures(feed_list, (&c, height), cells),
        0 <= i < cells@.len(),
    ensures
        ({
            let shown = c@.shown();
            let line = shown[shown.len() - cells@.len() + i];
            &&& cells@.len() <= shown.len()
            &&& cells@[i].channel@ == line.channel + " "@
            &&& cells@[i].from@ == line.from
            &&& line.summary.is_suffix_of(cells@[i].rest@)
            &&& text::mentions(cells@[i].rest@, line.kind)
        }),
        c@.shown().len() > 0 ==> cells@.len() > 0,
{
    let shown = c@.shown();
    let start = window_start(shown.len() as int, height);
    let line = shown[start + i];
    assert(feed_cells_show(cells@[i], line));
    text::lemma_four_pieces(" ("@, line.kind, "): "@, line.summary);
}

/// A drill-in shows the selected role: its name, its status, what it is doing, and its
/// newest activity last.
pub proof fn a_drill_in_shows_the_selected_role(
    c: Cockpit,
    height: u16,
    row: RoleRow,
    d: Option<Detail>,
)
    requires
        c.wf(),
        call_ensures(Cockpit::selected_role, (&c,), Some(&row)),
        call_ensures(detail, (&c, height), d),
    ensures
        d matches Some(shown) && shown.role@ == row.role@ + " "@ && shown.status == row.status,
        row.action@.len() > 0 ==> row.action@.is_suffix_of(d->0.now@),
        row.action@.len() == 0 ==> d->0.now@ == "now: "@ + "idle"@,
        c@.log_of(row.role@).len() > 0 ==> d->0.activity@.len() > 0 && d->0.activity@.last()@
            == c@.log_of(row.role@).last(),
        row.owned_paths@.len() == 0 ==> "no lane"@.is_suffix_of(d->0.spend@),
        row.owned_paths@.len() > 0 ==> text::joined(
            text::texts(row.owned_paths@),
            ", "@,
        ).is_suffix_of(d->0.spend@),
{
    let shown = d->0;
    let log = c@.log_of(row.role@);
    assert(detail_shows(shown, row@, log, height));
    text::lemma_pieces("now: "@, row.action@);
    let tail = text::texts(shown.activity@);
    assert(tail.len() == shown.activity@.len());
    if log.len() > 0 {
        assert(tail.last() == shown.activity@.last()@);
        assert(tail.last() == log.last());
    }
    assert(row@.owned_paths.len() == row.owned_paths@.len());
    let lane = if row.owned_paths@.len() == 0 {
        "no lane"@
    } else {
        text::joined(text::texts(row.owned_paths@), ", "@)
    };
    let front = "  "@ + number::decimal(row.tokens as nat) + " tokens  "@ + watch::dollars_text(
        row.cost_micro_usd,
    ) + "  lane: "@;
    text::lemma_pieces(front, lane);
}

/// The hints are those of the view that is showing.
pub proof fn the_hints_fit_the_view(c: Cockpit, drilled: bool, hints: &'static str)
    requires
        c.wf(),
        call_ensures(Cockpit::in_detail, (&c,), drilled),
        call_ensures(footer, (&c,), hints),
    ensures
        drilled ==> hints@ == DETAIL_HINTS@,
        !drilled ==> hints@ == OVERVIEW_HINTS@,
        drilled <==> c@.detail && c@.chosen() is Some,
{
}

} // verus!
