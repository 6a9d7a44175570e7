//! What the broker's reads hold, and how an agent reads them.
use vstd::prelude::*;

use crate::inbox::InboxItem;
use crate::number;
use crate::text;

verus! {

/// One task in the work ledger.
#[derive(Debug, PartialEq, Eq)]
pub struct LedgerItem {
    /// The task's key.
    pub task: String,
    /// A short human title, or empty.
    pub title: String,
    /// The role that owns the claim.
    pub owner: String,
    /// The task's state: `claimed`, `in_progress`, `blocked`, or `done`.
    pub state: String,
}

/// One roster entry.
#[derive(Debug, PartialEq, Eq)]
pub struct RoleEntry {
    /// The role's id.
    pub role: String,
    /// The paths the role owns.
    pub owned_paths: Vec<String>,
    /// The role's liveness (working / idle / stopped / dead).
    pub liveness: String,
    /// Whether the role is paused on its own; it is also gated whenever the
    /// crew is not running.
    pub paused: bool,
}

/// The crew's control standing.
#[derive(Debug, Clone, Copy, PartialEq, Eq, Structural)]
pub enum Standing {
    /// Normal: roles pull work as usual.
    Running,
    /// Globally paused: no role pulls new work.
    Paused,
    /// Stood down: an emergency halt.
    StoodDown,
}

impl Default for Standing {
    fn default() -> (r: Self)
        ensures
            r == Standing::Running,
    {
        Standing::Running
    }
}

/// A roster read: the crew's control standing and its registered roles.
#[derive(Debug, PartialEq, Eq)]
pub struct RosterSnapshot {
    /// The crew's control standing.
    pub standing: Standing,
    /// The registered roles, sorted by id.
    pub roles: Vec<RoleEntry>,
}

/// The done-gate read: every task under verification.
#[derive(Debug, PartialEq, Eq)]
pub struct GateSnapshot {
    /// The tasks under the done-gate, ordered by title.
    pub tasks: Vec<GateTask>,
}

/// One task's standing in the done-gate.
#[derive(Debug, PartialEq, Eq)]
pub struct GateTask {
    /// The task title.
    pub task: String,
    /// The role that submitted the work and owns any rework.
    pub owner: String,
    /// The independent role that returned the latest verdict, if any.
    pub verifier: Option<String>,
    /// Where the task stands: `submitted`, `passed`, or `failed`.
    pub verdict: String,
    /// The acceptance being claimed, or the failure on a handback.
    pub detail: String,
}

/// The situation board: the crew's durable memory.
#[derive(Debug, PartialEq, Eq)]
pub struct BoardSnapshot {
    /// The board's entries, ordered by section then topic.
    pub entries: Vec<BoardEntryView>,
}

/// One entry on the situation board.
#[derive(Debug, PartialEq, Eq)]
pub struct BoardEntryView {
    /// The entry's stable key (its topic).
    pub key: String,
    /// Which section it belongs to: `decision`, `interface`, or `gotcha`.
    pub section: String,
    /// The role that recorded it.
    pub author: String,
    /// The entry's content.
    pub body: String,
}

/// The bounded briefing packet of a role.
#[derive(Debug, PartialEq, Eq)]
pub struct BriefingPacket {
    /// The rendered packet text a role reads on boot.
    pub text: String,
    /// The packet's size in bytes.
    pub size: usize,
    /// The byte budget it was held to.
    pub budget: usize,
    /// Whether content was dropped to fit the budget.
    pub capped: bool,
}

/// The lines of a list, under a heading.
pub open spec fn headed(heading: Seq<char>, lines: Seq<Seq<char>>) -> Seq<char> {
    heading + "\n"@ + text::joined(lines, "\n"@)
}

/// A heading that counts something.
pub open spec fn counted(n: nat, what: Seq<char>) -> Seq<char> {
    number::decimal(n) + what
}

/// The lines of a list, under a heading that counts them.
fn head(n: usize, what: &str, lines: &Vec<String>) -> (r: String)
    ensures
        r@ == headed(counted(n as nat, what@), text::texts(lines@)),
{
    number::decimal_usize(n).concat(what).concat("\n").concat(
        text::join(lines.as_slice(), "\n").as_str(),
    )
}

/// What a message says: its structured detail first, then its body.
pub open spec fn content_text(item: InboxItem) -> Seq<char> {
    if item.detail@.len() == 0 {
        item.body@
    } else if item.body@.len() == 0 {
        item.detail@
    } else {
        item.detail@ + ". "@ + item.body@
    }
}

/// One message as an agent reads it.
pub open spec fn inbox_line(item: InboxItem) -> Seq<char> {
    "- "@ + (if item.directive {
        "[honor now] "@
    } else {
        ""@
    }) + item.from@ + " on "@ + item.channel@ + " ("@ + item.kind@ + ") [id "@ + item.id@ + "]: "@
        + content_text(item)
}

/// The inbox as an agent reads it.
pub open spec fn inbox_text(items: Seq<InboxItem>) -> Seq<char> {
    if items.len() == 0 {
        "No new messages."@
    } else {
        headed(
            counted(items.len(), " new message(s):"@),
            items.map_values(|item: InboxItem| inbox_line(item)),
        )
    }
}

/// Renders the inbox items an agent reads.
pub fn render_inbox(items: &[InboxItem]) -> (r: String)
    ensures
        r@ == inbox_text(items@),
{
    if items.len() == 0 {
        return "No new messages.".to_owned();
    }
    let ghost all = items@.map_values(|item: InboxItem| inbox_line(item));
    let mut lines: Vec<String> = Vec::new();
    let mut i: usize = 0;
    while i < items.len()
        invariant
            i <= items.len(),
            all == items@.map_values(|item: InboxItem| inbox_line(item)),
            text::texts(lines@) == all.take(i as int),
        decreases items.len() - i,
    {
        let item = &items[i];
        let content = if item.detail.as_str().is_empty() {
            item.body.clone()
        } else if item.body.as_str().is_empty() {
            item.detail.clone()
        } else {
            item.detail.clone().concat(". ").concat(item.body.as_str())
        };
        // A redirect or belay is a directive to honor at once, so flag it.
        let marker = if item.directive {
            "[honor now] "
        } else {
            ""
        };
        let line = "- ".to_owned().concat(marker).concat(item.from.as_str()).concat(" on ").concat(
            item.channel.as_str(),
        ).concat(" (").concat(item.kind.as_str()).concat(") [id ").concat(
            item.id.as_str(),
        ).concat("]: ").concat(content.as_str());
        assert(line@ == all[i as int]);
        let ghost before = text::texts(lines@);
        lines.push(line);
        assert(text::texts(lines@) =~= before.push(all[i as int]));
        i = i + 1;
        assert(all.take(i as int) =~= all.take(i - 1).push(all[i - 1]));
    }
    assert(all.take(all.len() as int) =~= all);
    head(items.len(), " new message(s):", &lines)
}

/// One claim as an agent reads it.
pub open spec fn ledger_line(item: LedgerItem) -> Seq<char> {
    "- "@ + item.task@ + " ["@ + item.state@ + "] "@ + item.owner@ + (if item.title@.len() == 0 {
        Seq::empty()
    } else {
        " ("@ + item.title@ + ")"@
    })
}

/// The work ledger as an agent reads it.
pub open spec fn ledger_text(items: Seq<LedgerItem>) -> Seq<char> {
    if items.len() == 0 {
        "The ledger is empty; no work is claimed."@
    } else {
        headed(
            counted(items.len(), " task(s):"@),
            items.map_values(|item: LedgerItem| ledger_line(item)),
        )
    }
}

/// Renders the work ledger an agent reads.
pub fn render_ledger(items: &[LedgerItem]) -> (r: String)
    ensures
        r@ == ledger_text(items@),
{
    if items.len() == 0 {
        return "The ledger is empty; no work is claimed.".to_owned();
    }
    let ghost all = items@.map_values(|item: LedgerItem| ledger_line(item));
    let mut lines: Vec<String> = Vec::new();
    let mut i: usize = 0;
    while i < items.len()
        invariant
            i <= items.len(),
            all == items@.map_values(|item: LedgerItem| ledger_line(item)),
            text::texts(lines@) == all.take(i as int),
        decreases items.len() - i,
    {
        let item = &items[i];
        let title = if item.title.as_str().is_empty() {
            String::new()
        } else {
            " (".to_owned().concat(item.title.as_str()).concat(")")
        };
        let line = "- ".to_owned().concat(item.task.as_str()).concat(" [").concat(
            item.state.as_str(),
        ).concat("] ").concat(item.owner.as_str()).concat(title.as_str());
        assert(line@ == all[i as int]);
        let ghost before = text::texts(lines@);
        lines.push(line);
        assert(text::texts(lines@) =~= before.push(all[i as int]));
        i = i + 1;
        assert(all.take(i as int) =~= all.take(i - 1).push(all[i - 1]));
    }
    assert(all.take(all.len() as int) =~= all);
    head(items.len(), " task(s):", &lines)
}

/// Whether a role must pull no new work: it is paused on its own, or the crew
/// is not running.
pub open spec fn gated(standing: Standing, role: RoleEntry) -> bool {
    role.paused || standing != Standing::Running
}

/// One role as an agent reads it.
pub open spec fn roster_line(standing: Standing, role: RoleEntry) -> Seq<char> {
    "- "@ + role.role@ + " ["@ + role.liveness@ + "]"@ + (if role.owned_paths@.len() == 0 {
        Seq::empty()
    } else {
        " owns "@ + text::joined(text::texts(role.owned_paths@), ", "@)
    }) + (if gated(standing, role) {
        " [PAUSED: pull no new work]"@
    } else {
        ""@
    })
}

/// The heading over a roster.
pub open spec fn roster_heading(standing: Standing) -> Seq<char> {
    match standing {
        Standing::Running => " role(s):"@,
        Standing::Paused => " role(s) (the crew is PAUSED):"@,
        Standing::StoodDown => " role(s) (the crew is STOOD DOWN):"@,
    }
}

/// The roster as an agent reads it.
pub open spec fn roster_text(snapshot: RosterSnapshot) -> Seq<char> {
    if snapshot.roles@.len() == 0 {
        "The roster is empty."@
    } else {
        headed(
            counted(snapshot.roles@.len(), roster_heading(snapshot.standing)),
            snapshot.roles@.map_values(|role: RoleEntry| roster_line(snapshot.standing, role)),
        )
    }
}

/// Renders the roster an agent reads.
pub fn render_roster(snapshot: &RosterSnapshot) -> (r: String)
    ensures
        r@ == roster_text(*snapshot),
{
    let roles = &snapshot.roles;
    if roles.len() == 0 {
        return "The roster is empty.".to_owned();
    }
    let ghost all = roles@.map_values(|role: RoleEntry| roster_line(snapshot.standing, role));
    let mut lines: Vec<String> = Vec::new();
    let mut i: usize = 0;
    while i < roles.len()
        invariant
            i <= roles.len(),
            all == roles@.map_values(|role: RoleEntry| roster_line(snapshot.standing, role)),
            text::texts(lines@) == all.take(i as int),
        decreases roles.len() - i,
    {
        let role = &roles[i];
        let owns = if role.owned_paths.len() == 0 {
            String::new()
        } else {
            " owns ".to_owned().concat(text::join(role.owned_paths.as_slice(), ", ").as_str())
        };
        // Flag a role that must pull no new work: paused on its own, or crew-gated.
        let flag = if role.paused || snapshot.standing != Standing::Running {
            " [PAUSED: pull no new work]"
        } else {
            ""
        };
        let line = "- ".to_owned().concat(role.role.as_str()).concat(" [").concat(
            role.liveness.as_str(),
        ).concat("]").concat(owns.as_str()).concat(flag);
        assert(line@ == all[i as int]);
        let ghost before = text::texts(lines@);
        lines.push(line);
        assert(text::texts(lines@) =~= before.push(all[i as int]));
        i = i + 1;
        assert(all.take(i as int) =~= all.take(i - 1).push(all[i - 1]));
    }
    assert(all.take(all.len() as int) =~= all);
    let heading = match snapshot.standing {
        Standing::Running => " role(s):",
        Standing::Paused => " role(s) (the crew is PAUSED):",
        Standing::StoodDown => " role(s) (the crew is STOOD DOWN):",
    };
    head(roles.len(), heading, &lines)
}

/// One task under verification as an agent reads it.
pub open spec fn gate_line(task: GateTask) -> Seq<char> {
    "- "@ + task.task@ + " owned by "@ + task.owner@ + " ["@ + task.verdict@ + (match task.verifier {
        Some(who) => " by "@ + who@,
        None => Seq::empty(),
    }) + "]"@ + (if task.detail@.len() == 0 {
        Seq::empty()
    } else {
        ": "@ + task.detail@
    })
}

/// The done-gate as an agent reads it.
pub open spec fn gate_text(snapshot: GateSnapshot) -> Seq<char> {
    if snapshot.tasks@.len() == 0 {
        "The done-gate is empty; no task is under verification."@
    } else {
        headed(
            counted(snapshot.tasks@.len(), " task(s) under the done-gate:"@),
            snapshot.tasks@.map_values(|task: GateTask| gate_line(task)),
        )
    }
}

/// Renders the done-gate an agent reads: each task under verification and its
/// standing.
pub fn render_gate(snapshot: &GateSnapshot) -> (r: String)
    ensures
        r@ == gate_text(*snapshot),
{
    let tasks = &snapshot.tasks;
    if tasks.len() == 0 {
        return "The done-gate is empty; no task is under verification.".to_owned();
    }
    let ghost all = tasks@.map_values(|task: GateTask| gate_line(task));
    let mut lines: Vec<String> = Vec::new();
    let mut i: usize = 0;
    while i < tasks.len()
        invariant
            i <= tasks.len(),
            all == tasks@.map_values(|task: GateTask| gate_line(task)),
            text::texts(lines@) == all.take(i as int),
        decreases tasks.len() - i,
    {
        let task = &tasks[i];
        let verifier = match &task.verifier {
            Some(who) => " by ".to_owned().concat(who.as_str()),
            None => String::new(),
        };
        let detail = if task.detail.as_str().is_empty() {
            String::new()
        } else {
            ": ".to_owned().concat(task.detail.as_str())
        };
        let line = "- ".to_owned().concat(task.task.as_str()).concat(" owned by ").concat(
            task.owner.as_str(),
        ).concat(" [").concat(task.verdict.as_str()).concat(verifier.as_str()).concat("]").concat(
            detail.as_str(),
        );
        assert(line@ == all[i as int]);
        let ghost before = text::texts(lines@);
        lines.push(line);
        assert(text::texts(lines@) =~= before.push(all[i as int]));
        i = i + 1;
        assert(all.take(i as int) =~= all.take(i - 1).push(all[i - 1]));
    }
    assert(all.take(all.len() as int) =~= all);
    head(tasks.len(), " task(s) under the done-gate:", &lines)
}

/// One board entry as an agent reads it.
pub open spec fn board_line(entry: BoardEntryView) -> Seq<char> {
    "- ["@ + entry.section@ + "] "@ + entry.key@ + " (by "@ + entry.author@ + "): "@ + entry.body@
}

/// The situation board as an agent reads it.
pub open spec fn board_text(snapshot: BoardSnapshot) -> Seq<char> {
    if snapshot.entries@.len() == 0 {
        "The situation board is empty."@
    } else {
        headed(
            counted(
                snapshot.entries@.len(),
                if snapshot.entries@.len() == 1 {
                    " board entry:"@
                } else {
                    " board entries:"@
                },
            ),
            snapshot.entries@.map_values(|entry: BoardEntryView| board_line(entry)),
        )
    }
}

/// Renders the situation board an agent reads: each entry, its section, author,
/// and content.
pub fn render_board(snapshot: &BoardSnapshot) -> (r: String)
    ensures
        r@ == board_text(*snapshot),
{
    let entries = &snapshot.entries;
    if entries.len() == 0 {
        return "The situation board is empty.".to_owned();
    }
    let ghost all = entries@.map_values(|entry: BoardEntryView| board_line(entry));
    let mut lines: Vec<String> = Vec::new();
    let mut i: usize = 0;
    while i < entries.len()
        invariant
            i <= entries.len(),
            all == entries@.map_values(|entry: BoardEntryView| board_line(entry)),
            text::texts(lines@) == all.take(i as int),
        decreases entries.len() - i,
    {
        let entry = &entries[i];
        let line = "- [".to_owned().concat(entry.section.as_str()).concat("] ").concat(
            entry.key.as_str(),
        ).concat(" (by ").concat(entry.author.as_str()).concat("): ").concat(entry.body.as_str());
        assert(line@ == all[i as int]);
        let ghost before = text::texts(lines@);
        lines.push(line);
        assert(text::texts(lines@) =~= before.push(all[i as int]));
        i = i + 1;
        assert(all.take(i as int) =~= all.take(i - 1).push(all[i - 1]));
    }
    assert(all.take(all.len() as int) =~= all);
    let what = if entries.len() == 1 {
        " board entry:"
    } else {
        " board entries:"
    };
    head(entries.len(), what, &lines)
}

/// The briefing packet as an agent reads it: the bounded text and its size.
pub open spec fn briefing_text(packet: BriefingPacket) -> Seq<char> {
    let size = number::decimal(packet.size as nat);
    let budget = number::decimal(packet.budget as nat);
    if packet.capped {
        packet.text@ + "\n\n[briefing capped to "@ + size + " of "@ + budget
            + " bytes; call crew_board or crew_inbox for more]"@
    } else {
        packet.text@ + "\n\n[briefing: "@ + size + " of "@ + budget + " bytes]"@
    }
}

/// Renders the briefing packet an agent reads on boot: the bounded text plus
/// its size.
pub fn render_briefing(packet: &BriefingPacket) -> (r: String)
    ensures
        r@ == briefing_text(*packet),
{
    let size = number::decimal_usize(packet.size);
    let budget = number::decimal_usize(packet.budget);
    if packet.capped {
        packet.text.clone().concat("\n\n[briefing capped to ").concat(size.as_str()).concat(
            " of ",
        ).concat(budget.as_str()).concat(" bytes; call crew_board or crew_inbox for more]")
    } else {
        packet.text.clone().concat("\n\n[briefing: ").concat(size.as_str()).concat(" of ").concat(
            budget.as_str(),
        ).concat(" bytes]")
    }
}

/// A role that must pull no new work is flagged on the roster, and no other.
pub proof fn the_gate_shows_on_the_roster(standing: Standing, role: RoleEntry)
    ensures
        gated(standing, role) <==> (role.paused || standing == Standing::Paused || standing
            == Standing::StoodDown),
        roster_line(standing, role) == roster_line(
            Standing::Running,
            RoleEntry { paused: gated(standing, role), ..role },
        ),
{
}

/// A list under a heading starts with the heading and mentions each of its lines.
pub proof fn lemma_headed(heading: Seq<char>, lines: Seq<Seq<char>>, k: int)
    requires
        0 <= k < lines.len(),
    ensures
        heading.is_prefix_of(headed(heading, lines)),
        text::mentions(headed(heading, lines), lines[k]),
{
    let body = text::joined(lines, "\n"@);
    text::lemma_joined_mentions(lines, "\n"@, k);
    text::lemma_pieces(heading, "\n"@);
    text::lemma_extends(heading + "\n"@, body, heading);
    text::lemma_mentions_within(heading + "\n"@, body, Seq::empty(), lines[k]);
    assert(heading + "\n"@ + body + Seq::<char>::empty() =~= heading + "\n"@ + body);
}

/// An agent reads every new message, under how many there are; and where there are
/// none, it is told so.
pub proof fn each_new_message_is_read(items: &[InboxItem], shown: String, k: int)
    requires
        call_ensures(render_inbox, (items,), shown),
    ensures
        items@.len() == 0 ==> shown@ == "No new messages."@,
        items@.len() > 0 ==> 0 <= k < items@.len() ==> (number::decimal(items@.len())
            + " new message(s):"@).is_prefix_of(shown@) && text::mentions(
            shown@,
            inbox_line(items@[k]),
        ),
{
    if 0 <= k < items@.len() {
        let lines = items@.map_values(|item: InboxItem| inbox_line(item));
        lemma_headed(counted(items@.len(), " new message(s):"@), lines, k);
    }
}

/// A message's line says who sent it, on which channel and under which id, and ends
/// with what it says: its detail, then its body. A directive is marked, and nothing
/// else is.
pub proof fn a_message_line_tells_the_message(item: InboxItem)
    ensures
        item.directive ==> ("- "@ + "[honor now] "@ + item.from@ + " on "@
            + item.channel@).is_prefix_of(inbox_line(item)),
        !item.directive ==> ("- "@ + item.from@ + " on "@ + item.channel@).is_prefix_of(
            inbox_line(item),
        ),
        text::mentions(inbox_line(item), " ("@ + item.kind@ + ") [id "@ + item.id@ + "]: "@),
        item.body@.is_suffix_of(inbox_line(item)) || item.body@.len() == 0,
        item.detail@.len() > 0 && item.body@.len() > 0 ==> (item.detail@ + ". "@
            + item.body@).is_suffix_of(inbox_line(item)),
        item.body@.len() == 0 ==> item.detail@.is_suffix_of(inbox_line(item)),
{
    let mark = if item.directive {
        "[honor now] "@
    } else {
        ""@
    };
    let front = "- "@ + mark + item.from@ + " on "@ + item.channel@;
    let middle = " ("@ + item.kind@ + ") [id "@ + item.id@ + "]: "@;
    let content = content_text(item);
    lemma_three(front, " ("@, item.kind@, ") [id "@, item.id@, "]: "@, content);
    if !item.directive {
        reveal_strlit("");
        assert("- "@ + ""@ =~= "- "@);
    }
    if item.detail@.len() > 0 && item.body@.len() > 0 {
        text::lemma_pieces(item.detail@ + ". "@, item.body@);
        lemma_suffix_of(inbox_line(item), content, item.body@);
    }
}

proof fn lemma_suffix_of(s: Seq<char>, end: Seq<char>, part: Seq<char>)
    requires
        end.is_suffix_of(s),
        part.is_suffix_of(end),
    ensures
        part.is_suffix_of(s),
{
    assert(s.subrange(s.len() - part.len(), s.len() as int) =~= end.subrange(
        end.len() - part.len(),
        end.len() as int,
    ));
}

proof fn lemma_three(
    front: Seq<char>,
    a: Seq<char>,
    b: Seq<char>,
    c: Seq<char>,
    d: Seq<char>,
    e: Seq<char>,
    content: Seq<char>,
)
    ensures
        ({
            let all = front + a + b + c + d + e + content;
            &&& front.is_prefix_of(all)
            &&& text::mentions(all, a + b + c + d + e)
            &&& content.is_suffix_of(all)
        }),
{
    let middle = a + b + c + d + e;
    assert(front + a + b + c + d + e == front + middle) by {
        text::lemma_associative(front, a, b);
        text::lemma_associative(front, a + b, c);
        text::lemma_associative(front, a + b + c, d);
        text::lemma_associative(front, a + b + c + d, e);
    }
    text::lemma_pieces(front, middle);
    text::lemma_extends(front + middle, content, front);
    text::lemma_extends(front + middle, content, middle);
    text::lemma_pieces(front + middle, content);
}

/// An agent reads every claim, by its task, its state and its owner.
pub proof fn each_claim_is_read(items: &[LedgerItem], shown: String, k: int)
    requires
        call_ensures(render_ledger, (items,), shown),
    ensures
        items@.len() == 0 ==> shown@ == "The ledger is empty; no work is claimed."@,
        0 <= k < items@.len() ==> (number::decimal(items@.len()) + " task(s):"@).is_prefix_of(shown@)
            && text::mentions(
            shown@,
            "- "@ + items@[k].task@ + " ["@ + items@[k].state@ + "] "@ + items@[k].owner@,
        ),
        0 <= k < items@.len() && items@[k].title@.len() > 0 ==> text::mentions(
            shown@,
            " ("@ + items@[k].title@ + ")"@,
        ),
{
    if 0 <= k < items@.len() {
        let item = items@[k];
        let lines = items@.map_values(|item: LedgerItem| ledger_line(item));
        lemma_headed(counted(items@.len(), " task(s):"@), lines, k);
        let told = "- "@ + item.task@ + " ["@ + item.state@ + "] "@ + item.owner@;
        let title = if item.title@.len() == 0 {
            Seq::<char>::empty()
        } else {
            " ("@ + item.title@ + ")"@
        };
        text::lemma_pieces(told, title);
        lemma_through(shown@, ledger_line(item), told);
        lemma_through(shown@, ledger_line(item), title);
    }
}

proof fn lemma_through(s: Seq<char>, middle: Seq<char>, part: Seq<char>)
    requires
        text::mentions(s, middle),
        text::mentions(middle, part),
    ensures
        text::mentions(s, part),
{
    let i = choose|i: int|
        0 <= i && i + middle.len() <= s.len() && #[trigger] s.subrange(i, i + middle.len())
            == middle;
    let k = choose|k: int|
        0 <= k && k + part.len() <= middle.len() && #[trigger] middle.subrange(k, k + part.len())
            == part;
    assert(s.subrange(i + k, i + k + part.len()) =~= middle.subrange(k, k + part.len()));
}

/// An agent reads every role, by its liveness and its lane, flagged exactly where it
/// must pull no new work; and the heading says where the whole crew is halted.
pub proof fn each_role_is_read(snapshot: RosterSnapshot, shown: String, k: int)
    requires
        call_ensures(render_roster, (&snapshot,), shown),
        0 <= k < snapshot.roles@.len(),
    ensures
        ({
            let role = snapshot.roles@[k];
            let line = roster_line(snapshot.standing, role);
            let halted = role.paused || snapshot.standing != Standing::Running;
            &&& text::mentions(shown@, line)
            &&& ("- "@ + role.role@ + " ["@ + role.liveness@ + "]"@).is_prefix_of(line)
            &&& halted ==> " [PAUSED: pull no new work]"@.is_suffix_of(line)
            &&& !halted && role.owned_paths@.len() > 0 ==> text::joined(
                text::texts(role.owned_paths@),
                ", "@,
            ).is_suffix_of(line)
            &&& !halted && role.owned_paths@.len() == 0 ==> line == "- "@ + role.role@ + " ["@
                + role.liveness@ + "]"@
        }),
        (number::decimal(snapshot.roles@.len()) + (match snapshot.standing {
            Standing::Running => " role(s):"@,
            Standing::Paused => " role(s) (the crew is PAUSED):"@,
            Standing::StoodDown => " role(s) (the crew is STOOD DOWN):"@,
        })).is_prefix_of(shown@),
{
    let role = snapshot.roles@[k];
    let standing = snapshot.standing;
    let lines = snapshot.roles@.map_values(|role: RoleEntry| roster_line(standing, role));
    lemma_headed(counted(snapshot.roles@.len(), roster_heading(standing)), lines, k);
    let front = "- "@ + role.role@ + " ["@ + role.liveness@ + "]"@;
    let owns = if role.owned_paths@.len() == 0 {
        Seq::<char>::empty()
    } else {
        " owns "@ + text::joined(text::texts(role.owned_paths@), ", "@)
    };
    let flag = if gated(standing, role) {
        " [PAUSED: pull no new work]"@
    } else {
        ""@
    };
    text::lemma_pieces(front, owns);
    text::lemma_extends(front + owns, flag, front);
    text::lemma_pieces(front + owns, flag);
    if !gated(standing, role) {
        reveal_strlit("");
        assert(front + owns + flag =~= front + owns);
        if role.owned_paths@.len() > 0 {
            let paths = text::joined(text::texts(role.owned_paths@), ", "@);
            text::lemma_associative(front, " owns "@, paths);
            text::lemma_pieces(front + " owns "@, paths);
        } else {
            assert(front + owns =~= front);
        }
    }
}

/// An agent reads every task under the done-gate, by its owner, its verdict and who
/// gave it, and what was claimed or found.
pub proof fn each_task_under_the_gate_is_read(snapshot: GateSnapshot, shown: String, k: int)
    requires
        call_ensures(render_gate, (&snapshot,), shown),
    ensures
        snapshot.tasks@.len() == 0 ==> shown@
            == "The done-gate is empty; no task is under verification."@,
        0 <= k < snapshot.tasks@.len() ==> {
            let task = snapshot.tasks@[k];
            let line = gate_line(task);
            &&& text::mentions(shown@, line)
            &&& ("- "@ + task.task@ + " owned by "@ + task.owner@ + " ["@
                + task.verdict@).is_prefix_of(line)
            &&& task.detail@.len() > 0 ==> task.detail@.is_suffix_of(line)
            &&& task.verifier matches Some(who) ==> text::mentions(line, " by "@ + who@)
        },
{
    if 0 <= k < snapshot.tasks@.len() {
        let task = snapshot.tasks@[k];
        let lines = snapshot.tasks@.map_values(|task: GateTask| gate_line(task));
        lemma_headed(counted(snapshot.tasks@.len(), " task(s) under the done-gate:"@), lines, k);
        let front = "- "@ + task.task@ + " owned by "@ + task.owner@ + " ["@ + task.verdict@;
        let by = match task.verifier {
            Some(who) => " by "@ + who@,
            None => Seq::<char>::empty(),
        };
        let detail = if task.detail@.len() == 0 {
            Seq::<char>::empty()
        } else {
            ": "@ + task.detail@
        };
        text::lemma_four_pieces(front, by, "]"@, detail);
        if task.detail@.len() > 0 {
            text::lemma_pieces(": "@, task.detail@);
            lemma_suffix_of(gate_line(task), detail, task.detail@);
        }
    }
}

/// An agent reads every board entry, under its section and its key, by its author and
/// with what it says.
pub proof fn each_board_entry_is_read(snapshot: BoardSnapshot, shown: String, k: int)
    requires
        call_ensures(render_board, (&snapshot,), shown),
    ensures
        snapshot.entries@.len() == 0 ==> shown@ == "The situation board is empty."@,
        0 <= k < snapshot.entries@.len() ==> {
            let entry = snapshot.entries@[k];
            &&& text::mentions(shown@, board_line(entry))
            &&& ("- ["@ + entry.section@ + "] "@ + entry.key@).is_prefix_of(board_line(entry))
            &&& entry.body@.is_suffix_of(board_line(entry))
            &&& text::mentions(board_line(entry), " (by "@ + entry.author@)
        },
{
    if 0 <= k < snapshot.entries@.len() {
        let entry = snapshot.entries@[k];
        let lines = snapshot.entries@.map_values(|entry: BoardEntryView| board_line(entry));
        let what = if snapshot.entries@.len() == 1 {
            " board entry:"@
        } else {
            " board entries:"@
        };
        lemma_headed(counted(snapshot.entries@.len(), what), lines, k);
        let front = "- ["@ + entry.section@ + "] "@ + entry.key@;
        text::lemma_associative(front, " (by "@, entry.author@);
        text::lemma_four_pieces(front, " (by "@ + entry.author@, "): "@, entry.body@);
    }
}

/// A briefing is read whole, with its size and its budget, and says so where it was
/// cut.
pub proof fn a_briefing_says_where_it_was_cut(packet: BriefingPacket, shown: String)
    requires
        call_ensures(render_briefing, (&packet,), shown),
    ensures
        packet.text@.is_prefix_of(shown@),
        packet.capped ==> text::mentions(shown@, "\n\n[briefing capped to "@),
        !packet.capped ==> text::mentions(
            shown@,
            "\n\n[briefing: "@ + number::decimal(packet.size as nat),
        ),
        text::mentions(
            shown@,
            number::decimal(packet.size as nat) + " of "@ + number::decimal(packet.budget as nat),
        ),
{
    let size = number::decimal(packet.size as nat);
    let budget = number::decimal(packet.budget as nat);
    let mark = if packet.capped {
        "\n\n[briefing capped to "@
    } else {
        "\n\n[briefing: "@
    };
    let end = if packet.capped {
        " bytes; call crew_board or crew_inbox for more]"@
    } else {
        " bytes]"@
    };
    lemma_cut(packet.text@, mark, size, " of "@, budget, end);
}

proof fn lemma_cut(
    text_: Seq<char>,
    mark: Seq<char>,
    size: Seq<char>,
    of: Seq<char>,
    budget: Seq<char>,
    end: Seq<char>,
)
    ensures
        ({
            let all = text_ + mark + size + of + budget + end;
            &&& text_.is_prefix_of(all)
            &&& text::mentions(all, mark)
            &&& text::mentions(all, mark + size)
            &&& text::mentions(all, size + of + budget)
        }),
{
    let a = text_ + mark;
    let b = a + size;
    let c = b + of;
    let d = c + budget;
    text::lemma_pieces(text_, mark);
    text::lemma_extends(a, size, text_);
    text::lemma_extends(b, of, text_);
    text::lemma_extends(c, budget, text_);
    text::lemma_extends(d, end, text_);
    text::lemma_extends(a, size, mark);
    text::lemma_extends(b, of, mark);
    text::lemma_extends(c, budget, mark);
    text::lemma_extends(d, end, mark);
    text::lemma_associative(text_, mark, size);
    text::lemma_pieces(text_, mark + size);
    text::lemma_extends(b, of, mark + size);
    text::lemma_extends(c, budget, mark + size);
    text::lemma_extends(d, end, mark + size);
    text::lemma_associative(a, size, of);
    text::lemma_associative(a, size + of, budget);
    text::lemma_pieces(a, size + of + budget);
    text::lemma_extends(d, end, size + of + budget);
}

} // verus!
