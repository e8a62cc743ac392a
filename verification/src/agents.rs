//! The agents that the dashboard knows.
use crate::search::{contains_str, has_text};
use crate::surface::SurfaceKind;
use crate::text::{concat2, views};
use vstd::prelude::*;

verus! {

/// An agent: its kind, the lower-case name that titles, screens and session files
/// use, the title that is shown, and other lower-case texts that reveal it on a
/// screen.
#[derive(Debug)]
pub struct AgentProfile {
    pub kind: SurfaceKind,
    pub name: String,
    pub title: String,
    pub marks: Vec<String>,
}

/// The known agents. Where a text fits several, the first one counts.
#[derive(Debug)]
pub struct AgentTable {
    pub agents: Vec<AgentProfile>,
}

/// The first agent at or after `i` whose name occurs in the text.
pub open spec fn named_from(s: Seq<AgentProfile>, lower: Seq<char>, i: int) -> Option<Seq<char>>
    decreases s.len() - i,
{
    if i < 0 || i >= s.len() {
        None
    } else if has_text(lower, s[i].name@) {
        Some(s[i].name@)
    } else {
        named_from(s, lower, i + 1)
    }
}

/// One of the texts occurs in the screen.
pub open spec fn any_mark(marks: Seq<String>, lower: Seq<char>) -> bool {
    exists|k: int| 0 <= k < marks.len() && has_text(lower, (#[trigger] marks[k])@)
}

/// A screen shows that an agent runs: its name behind a colon or a quotation mark,
/// or another text that reveals it.
pub open spec fn reveals(a: AgentProfile, lower: Seq<char>) -> bool {
    has_text(lower, ":"@ + a.name@) || has_text(lower, "\""@ + a.name@) || any_mark(
        a.marks@,
        lower,
    )
}

/// The first agent at or after `i` that the screen reveals.
pub open spec fn revealed_from(s: Seq<AgentProfile>, lower: Seq<char>, i: int) -> Option<Seq<char>>
    decreases s.len() - i,
{
    if i < 0 || i >= s.len() {
        None
    } else if reveals(s[i], lower) {
        Some(s[i].name@)
    } else {
        revealed_from(s, lower, i + 1)
    }
}

/// The first agent at or after `i` of the given kind.
pub open spec fn of_kind(s: Seq<AgentProfile>, kind: SurfaceKind, i: int) -> Option<int>
    decreases s.len() - i,
{
    if i < 0 || i >= s.len() {
        None
    } else if s[i].kind == kind {
        Some(i)
    } else {
        of_kind(s, kind, i + 1)
    }
}

fn marked(marks: &Vec<String>, lower: &str) -> (r: bool)
    ensures
        r == any_mark(marks@, lower@),
{
    let mut i: usize = 0;
    while i < marks.len()
        invariant
            i <= marks@.len(),
            forall|k: int| 0 <= k < i ==> !has_text(lower@, (#[trigger] marks@[k])@),
        decreases marks@.len() - i,
    {
        if contains_str(lower, marks[i].as_str()) {
            return true;
        }
        i += 1;
    }
    false
}

impl AgentTable {
    /// The agent that a lower-case title names.
    pub open spec fn named(self, lower: Seq<char>) -> Option<Seq<char>> {
        named_from(self.agents@, lower, 0)
    }

    /// The agent that a lower-case screen reveals.
    pub open spec fn revealed(self, lower: Seq<char>) -> Option<Seq<char>> {
        revealed_from(self.agents@, lower, 0)
    }

    /// The word for a kind: an agent's own name where it has one.
    pub open spec fn label(self, kind: SurfaceKind) -> Seq<char> {
        match kind {
            SurfaceKind::OtherAgent => "agent"@,
            SurfaceKind::Shell => "shell"@,
            SurfaceKind::Remote => "remote"@,
            SurfaceKind::Unknown => "unknown"@,
            _ => match of_kind(self.agents@, kind, 0) {
                Some(i) => self.agents@[i].name@,
                None => "agent"@,
            },
        }
    }

    /// The title that is shown for a kind; empty without an agent of that kind.
    pub open spec fn title(self, kind: SurfaceKind) -> Seq<char> {
        match of_kind(self.agents@, kind, 0) {
            Some(i) => self.agents@[i].title@,
            None => ""@,
        }
    }

    fn find_kind(&self, kind: SurfaceKind) -> (r: Option<usize>)
        ensures
            match r {
                Some(i) => of_kind(self.agents@, kind, 0) == Some(i as int) && i
                    < self.agents@.len(),
                None => of_kind(self.agents@, kind, 0) is None,
            },
    {
        let mut i: usize = 0;
        while i < self.agents.len()
            invariant
                i <= self.agents@.len(),
                of_kind(self.agents@, kind, 0) == of_kind(self.agents@, kind, i as int),
            decreases self.agents@.len() - i,
        {
            if self.agents[i].kind == kind {
                return Some(i);
            }
            i += 1;
        }
        None
    }

    /// The agent that a title, already in lower case, names.
    pub fn agent_in_title(&self, lower: &str) -> (r: Option<&str>)
        ensures
            (match r {
                Some(s) => Some(s@),
                None => None,
            }) == self.named(lower@),
    {
        let mut i: usize = 0;
        while i < self.agents.len()
            invariant
                i <= self.agents@.len(),
                self.named(lower@) == named_from(self.agents@, lower@, i as int),
            decreases self.agents@.len() - i,
        {
            if contains_str(lower, self.agents[i].name.as_str()) {
                return Some(self.agents[i].name.as_str());
            }
            i += 1;
        }
        None
    }

    /// The agent that a screen, already in lower case, reveals.
    pub fn detect_agent(&self, lower: &str) -> (r: Option<String>)
        ensures
            (match r {
                Some(s) => Some(s@),
                None => None,
            }) == self.revealed(lower@),
    {
        let mut i: usize = 0;
        while i < self.agents.len()
            invariant
                i <= self.agents@.len(),
                self.revealed(lower@) == revealed_from(self.agents@, lower@, i as int),
            decreases self.agents@.len() - i,
        {
            let a = &self.agents[i];
            if contains_str(lower, concat2(":", a.name.as_str()).as_str()) || contains_str(
                lower,
                concat2("\"", a.name.as_str()).as_str(),
            ) || marked(&a.marks, lower) {
                return Some(a.name.clone());
            }
            i += 1;
        }
        None
    }

    /// The word for a kind.
    pub fn kind_label(&self, kind: SurfaceKind) -> (r: String)
        ensures
            r@ == self.label(kind),
    {
        match kind {
            SurfaceKind::OtherAgent => String::from_str("agent"),
            SurfaceKind::Shell => String::from_str("shell"),
            SurfaceKind::Remote => String::from_str("remote"),
            SurfaceKind::Unknown => String::from_str("unknown"),
            _ => match self.find_kind(kind) {
                Some(i) => self.agents[i].name.clone(),
                None => String::from_str("agent"),
            },
        }
    }

    /// The title that is shown for a kind.
    pub fn kind_title(&self, kind: SurfaceKind) -> (r: String)
        ensures
            r@ == self.title(kind),
    {
        match self.find_kind(kind) {
            Some(i) => self.agents[i].title.clone(),
            None => String::from_str(""),
        }
    }
}

/// What is known of an agent.
pub open spec fn is_profile(
    a: AgentProfile,
    kind: SurfaceKind,
    name: Seq<char>,
    title: Seq<char>,
    marks: Seq<Seq<char>>,
) -> bool {
    &&& a.kind == kind
    &&& a.name@ == name
    &&& a.title@ == title
    &&& views(a.marks@) == marks
}

/// The table holds the three known agents, in the order in which they are looked
/// for. The first one goes by `name` and `title`, and shows its name with the word
/// "code" behind it; Codex shows the name of its model.
pub open spec fn holds_known_agents(t: AgentTable, name: Seq<char>, title: Seq<char>) -> bool {
    &&& t.agents@.len() == 3
    &&& is_profile(t.agents@[0], SurfaceKind::Claude, name, title, seq![name + " code"@])
    &&& is_profile(t.agents@[1], SurfaceKind::Codex, "codex"@, "Codex"@, seq!["gpt-"@])
    &&& is_profile(
        t.agents@[2],
        SurfaceKind::OtherAgent,
        "opencode"@,
        "opencode"@,
        Seq::<Seq<char>>::empty(),
    )
}

fn profile(kind: SurfaceKind, name: &str, title: &str, mark: Option<String>) -> (r: AgentProfile)
    ensures
        is_profile(
            r,
            kind,
            name@,
            title@,
            match mark {
                Some(m) => seq![m@],
                None => Seq::empty(),
            },
        ),
{
    let mut marks: Vec<String> = Vec::new();
    assert(views(marks@) =~= Seq::<Seq<char>>::empty());
    if let Some(m) = mark {
        marks.push(m);
        assert(views(marks@) =~= seq![m@]);
    }
    AgentProfile { kind, name: String::from_str(name), title: String::from_str(title), marks }
}

/// The table of the known agents. The caller says by which name and title the agent
/// of the first kind goes.
pub fn known_agents(name: &str, title: &str) -> (r: AgentTable)
    ensures
        holds_known_agents(r, name@, title@),
{
    let mut agents: Vec<AgentProfile> = Vec::new();
    agents.push(profile(SurfaceKind::Claude, name, title, Some(concat2(name, " code"))));
    agents.push(profile(SurfaceKind::Codex, "codex", "Codex", Some(String::from_str("gpt-"))));
    agents.push(profile(SurfaceKind::OtherAgent, "opencode", "opencode", None));
    AgentTable { agents }
}

/// A known agent's name occurs behind a colon or a quotation mark.
pub open spec fn is_quoted(lower: Seq<char>, name: Seq<char>) -> bool {
    has_text(lower, ":"@ + name) || has_text(lower, "\""@ + name)
}

/// How the known agents are told on screens and in titles, and what their kinds are
/// called. The first one that fits counts.
pub proof fn known_agents_are_told_apart(
    t: AgentTable,
    name: Seq<char>,
    title: Seq<char>,
    lower: Seq<char>,
)
    requires
        holds_known_agents(t, name, title),
    ensures
        t.revealed(lower) == if is_quoted(lower, name) || has_text(lower, name + " code"@) {
            Some(name)
        } else if is_quoted(lower, "codex"@) || has_text(lower, "gpt-"@) {
            Some("codex"@)
        } else if is_quoted(lower, "opencode"@) {
            Some("opencode"@)
        } else {
            None
        },
        t.named(lower) == if has_text(lower, name) {
            Some(name)
        } else if has_text(lower, "codex"@) {
            Some("codex"@)
        } else if has_text(lower, "opencode"@) {
            Some("opencode"@)
        } else {
            None
        },
        t.label(SurfaceKind::Claude) == name,
        t.label(SurfaceKind::Codex) == "codex"@,
        t.label(SurfaceKind::OtherAgent) == "agent"@,
        t.title(SurfaceKind::Claude) == title,
        t.title(SurfaceKind::Codex) == "Codex"@,
{
    reveal_with_fuel(named_from, 5);
    reveal_with_fuel(revealed_from, 5);
    reveal_with_fuel(of_kind, 5);
    let first = t.agents@[0].marks@;
    let second = t.agents@[1].marks@;
    let third = t.agents@[2].marks@;
    assert(views(first).len() == first.len());
    assert(views(second).len() == second.len());
    assert(views(third).len() == third.len());
    assert(views(first)[0] == first[0]@);
    assert(views(second)[0] == second[0]@);
    assert(any_mark(first, lower) == has_text(lower, first[0]@));
    assert(any_mark(second, lower) == has_text(lower, second[0]@));
    assert(!any_mark(third, lower));
}

} // verus!
