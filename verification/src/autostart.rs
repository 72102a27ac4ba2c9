//! Starting the server when the user signs in to Windows: the command that the
//! registry holds, and the question whether to put it there.

use vstd::prelude::*;

verus! {

/// The status of a Windows call that succeeded.
pub const ERROR_SUCCESS: u32 = 0;

/// The registry type of a text.
pub const REG_SZ: u32 = 1;

/// The UTF-16 code units of a character.
pub open spec fn utf16_units(c: char) -> Seq<u16> {
    let u = c as u32;
    if u < 0x10000 {
        seq![u as u16]
    } else {
        seq![(0xd800 + (u - 0x10000) / 0x400) as u16, (0xdc00 + (u - 0x10000) % 0x400) as u16]
    }
}

/// The UTF-16 code units of a text.
pub open spec fn utf16(s: Seq<char>) -> Seq<u16>
    decreases s.len(),
{
    if s.len() == 0 {
        Seq::empty()
    } else {
        utf16(s.drop_last()) + utf16_units(s.last())
    }
}

/// The bytes of code units, low byte first.
pub open spec fn low_byte_first(units: Seq<u16>) -> Seq<u8>
    decreases units.len(),
{
    if units.len() == 0 {
        Seq::empty()
    } else {
        low_byte_first(units.drop_last()).push((units.last() % 256) as u8).push(
            (units.last() / 256) as u8,
        )
    }
}

/// A text with each single quote doubled.
pub open spec fn quotes_doubled(s: Seq<char>) -> Seq<char>
    decreases s.len(),
{
    if s.len() == 0 {
        Seq::empty()
    } else if s.last() == '\'' {
        quotes_doubled(s.drop_last()).push('\'').push('\'')
    } else {
        quotes_doubled(s.drop_last()).push(s.last())
    }
}

/// The part of the command in front of the path.
pub open spec fn command_head() -> Seq<char> {
    "powershell.exe -NoLogo -NoProfile -NonInteractive -WindowStyle Hidden -Command \"Start-Process -FilePath '"@
}

/// The part of the command behind the closing quote of the path.
pub open spec fn command_tail() -> Seq<char> {
    " -ArgumentList '--background' -WindowStyle Hidden\""@
}

/// The command line that starts the executable hidden.
pub open spec fn command_line(exe: Seq<char>) -> Seq<char> {
    command_head() + quotes_doubled(exe) + seq!['\''] + command_tail()
}

/// The UTF-16 code units of a text, with a zero behind them.
pub fn wide(value: &str) -> (r: Vec<u16>)
    ensures
        r@ == utf16(value@).push(0),
{
    let mut out: Vec<u16> = Vec::new();
    for c in it: value.chars()
        invariant
            it.seq() == value@,
            out@ == utf16(value@.take(it.index() as int)),
    {
        let ghost i = it.index() as int;
        let u: u32 = c as u32;
        if u < 0x10000 {
            out.push(u as u16);
        } else {
            out.push((0xd800 + (u - 0x10000) / 0x400) as u16);
            out.push((0xdc00 + (u - 0x10000) % 0x400) as u16);
        }
        proof {
            let t = value@.take(i + 1);
            assert(t.drop_last() =~= value@.take(i));
            assert(t.last() == c);
            assert(out@ =~= utf16(value@.take(i)) + utf16_units(c));
        }
    }
    assert(value@.take(value@.len() as int) =~= value@);
    out.push(0);
    out
}

/// The text as it stands between the quotes of a PowerShell literal.
pub fn powershell_literal(value: &str) -> (r: String)
    ensures
        r@ == quotes_doubled(value@),
{
    let mut out: String = String::new();
    for c in it: value.chars()
        invariant
            it.seq() == value@,
            out@ == quotes_doubled(value@.take(it.index() as int)),
    {
        let ghost i = it.index() as int;
        if c == '\'' {
            out.push('\'');
        }
        out.push(c);
        proof {
            let t = value@.take(i + 1);
            assert(t.drop_last() =~= value@.take(i));
            assert(t.last() == c);
        }
    }
    assert(value@.take(value@.len() as int) =~= value@);
    out
}

/// The command that starts the executable at sign-in.
///
/// Explorer starts executables from the Run key without creation flags. A
/// console program therefore gets an empty console before it can hide it, and
/// closing that console ends the worker. So PowerShell starts the worker hidden
/// from the outset.
pub fn autostart_command(exe: &str) -> (r: String)
    ensures
        r@ == command_line(exe@),
{
    let mut out: String =
        "powershell.exe -NoLogo -NoProfile -NonInteractive -WindowStyle Hidden -Command \"Start-Process -FilePath '".to_string();
    out.append(powershell_literal(exe).as_str());
    out.push('\'');
    out.append(" -ArgumentList '--background' -WindowStyle Hidden\"");
    assert(out@ =~= command_line(exe@));
    out
}

/// The bytes of code units, low byte first.
fn unit_bytes(units: &Vec<u16>) -> (r: Vec<u8>)
    ensures
        r@ == low_byte_first(units@),
{
    let mut out: Vec<u8> = Vec::new();
    let mut i: usize = 0;
    while i < units.len()
        invariant
            i <= units@.len(),
            out@ == low_byte_first(units@.take(i as int)),
        decreases units@.len() - i,
    {
        let u: u16 = units[i];
        out.push((u % 256) as u8);
        out.push((u / 256) as u8);
        assert(units@.take(i + 1).drop_last() =~= units@.take(i as int));
        i = i + 1;
    }
    assert(units@.take(i as int) =~= units@);
    out
}

/// The data of the registry value that starts the executable at sign-in.
pub open spec fn entry_data(exe: Seq<char>) -> Seq<u8> {
    low_byte_first(utf16(command_line(exe)).push(0))
}

/// The data of the registry value that starts the executable at sign-in.
pub fn run_entry(exe: &str) -> (r: Vec<u8>)
    ensures
        r@ == entry_data(exe@),
        r@ == low_byte_first(utf16(command_line(exe@)).push(0)),
{
    unit_bytes(&wide(autostart_command(exe).as_str()))
}

/// Whether a query of the registry value found a text that is not empty.
pub open spec fn text_found(status: u32, kind: u32, bytes: u32) -> bool {
    status == ERROR_SUCCESS && kind == REG_SZ && bytes > 2
}

/// Whether a query of the registry value found a text that is not empty.
pub fn is_enabled(status: u32, kind: u32, bytes: u32) -> (r: bool)
    ensures
        r == text_found(status, kind, bytes),
        r == (status == ERROR_SUCCESS && kind == REG_SZ && bytes > 2),
{
    status == ERROR_SUCCESS && kind == REG_SZ && bytes > 2
}

/// The outcome of a Windows call that reports a status.
pub open spec fn status_outcome(status: u32) -> Result<(), u32> {
    if status == ERROR_SUCCESS {
        Ok(())
    } else {
        Err(status)
    }
}

/// The outcome of a Windows call that reports a status.
pub fn check_status(status: u32) -> (r: Result<(), u32>)
    ensures
        r == status_outcome(status),
        r == if status == ERROR_SUCCESS {
            Ok::<(), u32>(())
        } else {
            Err::<(), u32>(status)
        },
{
    if status == ERROR_SUCCESS {
        Ok(())
    } else {
        Err(status)
    }
}

/// What the outside world has to say in the dialogue on autostart.
#[derive(Debug, Clone, Copy, PartialEq, Eq)]
pub enum PromptEvent {
    /// The server was launched.
    Launched,
    /// Whether the registry holds the entry.
    Enabled(bool),
    /// Whether the user asked not to be asked again.
    Dismissed(bool),
    /// The item that the user chose; none if the menu was left.
    Chosen(Option<usize>),
    /// The last action was carried out.
    Performed,
}

/// What is to be done next in the dialogue on autostart.
#[derive(Debug, Clone, Copy, PartialEq, Eq, Structural)]
pub enum PromptAction {
    /// Look whether the registry holds the entry.
    QueryEnabled,
    /// Write the entry again, for the executable may have moved.
    RefreshEntry,
    /// Look whether the user asked not to be asked again.
    QueryDismissed,
    /// Show the question and its choices.
    Ask,
    /// Leave everything as it is.
    LeaveUnchanged,
    /// Remember that the user does not want to be asked again.
    DismissForever,
    /// Put the entry into the registry.
    AddEntry,
    /// The dialogue is over.
    Stop,
}

/// The choice that is highlighted first, and the one that leaving the menu
/// stands for.
pub const DEFAULT_CHOICE: usize = 0;

/// The action that follows an event.
pub open spec fn next_action(event: PromptEvent) -> PromptAction {
    match event {
        PromptEvent::Launched => PromptAction::QueryEnabled,
        PromptEvent::Enabled(true) => PromptAction::RefreshEntry,
        PromptEvent::Enabled(false) => PromptAction::QueryDismissed,
        PromptEvent::Dismissed(true) => PromptAction::Stop,
        PromptEvent::Dismissed(false) => PromptAction::Ask,
        PromptEvent::Chosen(Some(1)) => PromptAction::DismissForever,
        PromptEvent::Chosen(Some(2)) => PromptAction::AddEntry,
        PromptEvent::Chosen(_) => PromptAction::LeaveUnchanged,
        PromptEvent::Performed => PromptAction::Stop,
    }
}

/// The action that follows an event in the dialogue on autostart. The question
/// comes once in a launch, unless the user has dismissed it for good or the
/// entry is there already.
pub fn prompt(event: PromptEvent) -> (r: PromptAction)
    ensures
        r == next_action(event),
{
    match event {
        PromptEvent::Launched => PromptAction::QueryEnabled,
        PromptEvent::Enabled(enabled) => {
            if enabled {
                PromptAction::RefreshEntry
            } else {
                PromptAction::QueryDismissed
            }
        },
        PromptEvent::Dismissed(dismissed) => {
            if dismissed {
                PromptAction::Stop
            } else {
                PromptAction::Ask
            }
        },
        PromptEvent::Chosen(chosen) => {
            let selected: usize = match chosen {
                Some(i) => i,
                None => DEFAULT_CHOICE,
            };
            if selected == 1 {
                PromptAction::DismissForever
            } else if selected == 2 {
                PromptAction::AddEntry
            } else {
                PromptAction::LeaveUnchanged
            }
        },
        PromptEvent::Performed => PromptAction::Stop,
    }
}

impl PromptAction {
    /// What the user is told once the action was carried out.
    pub open spec fn told(self) -> Option<Seq<char>> {
        match self {
            PromptAction::LeaveUnchanged => Some("Autostart was not changed.\n"@),
            PromptAction::DismissForever => Some("Autostart question disabled.\n"@),
            PromptAction::AddEntry => Some("mousee was added to Windows autostart.\n"@),
            _ => None,
        }
    }

    /// What the user is told once the action was carried out.
    pub fn notice(self) -> (r: Option<&'static str>)
        ensures
            match self.told() {
                Some(t) => r is Some && r.unwrap()@ == t,
                None => r is None,
            },
    {
        match self {
            PromptAction::LeaveUnchanged => Some("Autostart was not changed.\n"),
            PromptAction::DismissForever => Some("Autostart question disabled.\n"),
            PromptAction::AddEntry => Some("mousee was added to Windows autostart.\n"),
            _ => None,
        }
    }
}

/// The choices that go with the question, in order.
pub fn choices() -> (r: Vec<&'static str>)
    ensures
        r@.len() == 3,
        r@[0]@ == "No, not now (default)"@,
        r@[1]@ == "No, and don't ask again"@,
        r@[2]@ == "Yes, start mousee with Windows"@,
{
    let mut out: Vec<&'static str> = Vec::new();
    out.push("No, not now (default)");
    out.push("No, and don't ask again");
    out.push("Yes, start mousee with Windows");
    out
}

/// The state of the machine that the dialogue looks at and changes.
pub struct Desk {
    /// The registry holds the entry.
    pub enabled: bool,
    /// The user asked not to be asked again.
    pub dismissed: bool,
}

impl Desk {
    /// What the world answers to an action, where `chosen` is what the user
    /// chooses when asked.
    pub open spec fn answer(self, action: PromptAction, chosen: Option<usize>) -> PromptEvent {
        match action {
            PromptAction::QueryEnabled => PromptEvent::Enabled(self.enabled),
            PromptAction::QueryDismissed => PromptEvent::Dismissed(self.dismissed),
            PromptAction::Ask => PromptEvent::Chosen(chosen),
            _ => PromptEvent::Performed,
        }
    }

    /// What an action makes of the machine.
    pub open spec fn after(self, action: PromptAction) -> Desk {
        match action {
            PromptAction::RefreshEntry => Desk { enabled: true, ..self },
            PromptAction::AddEntry => Desk { enabled: true, ..self },
            PromptAction::DismissForever => Desk { dismissed: true, ..self },
            _ => self,
        }
    }
}

/// The actions of a dialogue from an event on, at most `steps` of them.
pub open spec fn dialogue(
    desk: Desk,
    event: PromptEvent,
    chosen: Option<usize>,
    steps: nat,
) -> Seq<PromptAction>
    decreases steps,
{
    let action = next_action(event);
    if steps == 0 {
        Seq::empty()
    } else if action == PromptAction::Stop {
        seq![action]
    } else {
        seq![action] + dialogue(
            desk.after(action),
            desk.answer(action, chosen),
            chosen,
            (steps - 1) as nat,
        )
    }
}

/// The machine after the dialogue.
pub open spec fn desk_after(desk: Desk, actions: Seq<PromptAction>) -> Desk
    decreases actions.len(),
{
    if actions.len() == 0 {
        desk
    } else {
        desk_after(desk, actions.drop_last()).after(actions.last())
    }
}

/// The actions of a launch.
proof fn lemma_launch_actions(desk: Desk, chosen: Option<usize>)
    ensures
        dialogue(desk, PromptEvent::Launched, chosen, 5) == if desk.enabled {
            seq![PromptAction::QueryEnabled, PromptAction::RefreshEntry, PromptAction::Stop]
        } else if desk.dismissed {
            seq![PromptAction::QueryEnabled, PromptAction::QueryDismissed, PromptAction::Stop]
        } else {
            seq![
                PromptAction::QueryEnabled,
                PromptAction::QueryDismissed,
                PromptAction::Ask,
                next_action(PromptEvent::Chosen(chosen)),
                PromptAction::Stop,
            ]
        },
{
    reveal_with_fuel(dialogue, 6);
}

/// The dialogue of a launch: it ends, it asks exactly where the entry is
/// missing and the question was not dismissed, and then it asks once.
pub proof fn launch_asks_at_most_once(desk: Desk, chosen: Option<usize>)
    ensures
        ({
            let actions = dialogue(desk, PromptEvent::Launched, chosen, 5);
            &&& actions.last() == PromptAction::Stop
            &&& actions.contains(PromptAction::Ask) <==> !desk.enabled && !desk.dismissed
            &&& forall|i: int, j: int|
                0 <= i < j < actions.len() && #[trigger] actions[i] == PromptAction::Ask ==> (
                #[trigger] actions[j]) != PromptAction::Ask
        }),
{
    lemma_launch_actions(desk, chosen);
    let actions = dialogue(desk, PromptEvent::Launched, chosen, 5);
    if !desk.enabled && !desk.dismissed {
        assert(actions[2] == PromptAction::Ask);
    }
}

/// What a launch leaves behind: an entry that was there stays, the user's
/// choice is carried out where the question came, and nothing else changes. So
/// the default choice, and leaving the menu, change nothing.
pub proof fn launch_carries_out_the_choice(desk: Desk, chosen: Option<usize>)
    ensures
        desk_after(desk, dialogue(desk, PromptEvent::Launched, chosen, 5)) == (Desk {
            enabled: desk.enabled || (!desk.dismissed && chosen == Some(2usize)),
            dismissed: desk.dismissed || (!desk.enabled && chosen == Some(1usize)),
        }),
{
    lemma_launch_actions(desk, chosen);
    reveal_with_fuel(desk_after, 6);
    let actions = dialogue(desk, PromptEvent::Launched, chosen, 5);
    if desk.enabled || desk.dismissed {
        assert(actions.drop_last().drop_last().drop_last() =~= Seq::<PromptAction>::empty());
    } else {
        assert(actions.drop_last().drop_last().drop_last().drop_last().drop_last() =~= Seq::<
            PromptAction,
        >::empty());
    }
}

/// What PowerShell reads of a single-quoted literal behind its opening quote:
/// the value, and the text behind the closing quote. Two quotes in a row stand
/// for one.
pub open spec fn literal_read(s: Seq<char>) -> Option<(Seq<char>, Seq<char>)>
    decreases s.len(),
{
    if s.len() == 0 {
        None
    } else if s[0] != '\'' {
        match literal_read(s.drop_first()) {
            Some((value, rest)) => Some((seq![s[0]] + value, rest)),
            None => None,
        }
    } else if s.len() > 1 && s[1] == '\'' {
        match literal_read(s.skip(2)) {
            Some((value, rest)) => Some((seq!['\''] + value, rest)),
            None => None,
        }
    } else {
        Some((Seq::empty(), s.drop_first()))
    }
}

proof fn lemma_quotes_doubled_front(c: char, s: Seq<char>)
    ensures
        quotes_doubled(seq![c] + s) == (if c == '\'' {
            seq!['\'', '\'']
        } else {
            seq![c]
        }) + quotes_doubled(s),
    decreases s.len(),
{
    let t = seq![c] + s;
    if s.len() == 0 {
        assert(t.drop_last() =~= Seq::<char>::empty());
        assert(t.last() == c);
        assert(s =~= Seq::<char>::empty());
        reveal_with_fuel(quotes_doubled, 2);
        assert(quotes_doubled(t) =~= if c == '\'' {
            seq!['\'', '\'']
        } else {
            seq![c]
        });
    } else {
        assert(t.drop_last() =~= seq![c] + s.drop_last());
        assert(t.last() == s.last());
        lemma_quotes_doubled_front(c, s.drop_last());
        assert(quotes_doubled(t) =~= (if c == '\'' {
            seq!['\'', '\'']
        } else {
            seq![c]
        }) + quotes_doubled(s));
    }
}

/// A text with its quotes doubled, followed by a quote, is read back as the same
/// text, whatever follows, as long as that is not another quote.
pub proof fn quoted_text_reads_back(value: Seq<char>, rest: Seq<char>)
    requires
        rest.len() > 0 ==> rest[0] != '\'',
    ensures
        literal_read(quotes_doubled(value) + seq!['\''] + rest) == Some((value, rest)),
    decreases value.len(),
{
    let s = quotes_doubled(value) + seq!['\''] + rest;
    if value.len() == 0 {
        assert(s =~= seq!['\''] + rest);
        assert(s.drop_first() =~= rest);
        assert(value =~= Seq::<char>::empty());
    } else {
        let c = value[0];
        let tail = value.drop_first();
        assert(value =~= seq![c] + tail);
        lemma_quotes_doubled_front(c, tail);
        quoted_text_reads_back(tail, rest);
        let t = quotes_doubled(tail) + seq!['\''] + rest;
        if c == '\'' {
            assert(s =~= seq!['\'', '\''] + t);
            assert(s.skip(2) =~= t);
        } else {
            assert(s =~= seq![c] + t);
            assert(s.drop_first() =~= t);
        }
    }
}

/// PowerShell reads the path of the executable back from the command, whatever
/// quotes it holds.
pub proof fn command_names_the_executable(exe: Seq<char>)
    ensures
        command_line(exe).take(command_head().len() as int) == command_head(),
        literal_read(command_line(exe).skip(command_head().len() as int)) == Some(
            (exe, command_tail()),
        ),
{
    reveal_strlit(" -ArgumentList '--background' -WindowStyle Hidden\"");
    let body = quotes_doubled(exe) + seq!['\''] + command_tail();
    assert(command_line(exe) =~= command_head() + body);
    assert(command_line(exe).take(command_head().len() as int) =~= command_head());
    assert(command_line(exe).skip(command_head().len() as int) =~= body);
    quoted_text_reads_back(exe, command_tail());
}

/// The last code unit of a character tells how many there are.
proof fn lemma_units(c: char)
    ensures
        1 <= utf16_units(c).len() <= 2,
        utf16_units(c).len() == 2 <==> 0xdc00 <= utf16_units(c).last() <= 0xdfff,
{
}

proof fn lemma_units_are_injective(x: char, y: char)
    requires
        utf16_units(x) == utf16_units(y),
    ensures
        x == y,
{
    lemma_units(x);
    lemma_units(y);
    let u = utf16_units(x);
    let v = utf16_units(y);
    assert(u[0] == v[0]);
    if u.len() == 2 {
        assert(u[1] == v[1]);
    }
    assert(x as u32 == y as u32);
}

/// UTF-16 code units determine the text.
pub proof fn utf16_is_injective(a: Seq<char>, b: Seq<char>)
    requires
        utf16(a) == utf16(b),
    ensures
        a == b,
    decreases a.len(),
{
    if a.len() == 0 {
        if b.len() > 0 {
            assert(utf16(b).len() > 0);
        }
        assert(a =~= b);
    } else if b.len() == 0 {
        assert(utf16(a).len() > 0);
    } else {
        let x = a.last();
        let y = b.last();
        let ux = utf16_units(x);
        let uy = utf16_units(y);
        let s = utf16(a);
        let t = utf16(b);
        assert(s.last() == ux.last());
        assert(t.last() == uy.last());
        lemma_units(x);
        lemma_units(y);
        if ux.len() == 2 {
            assert(s[s.len() - 2] == ux[0]);
            assert(t[t.len() - 2] == uy[0]);
        }
        assert(ux =~= uy);
        lemma_units_are_injective(x, y);
        assert(utf16(a.drop_last()) =~= s.take(s.len() - ux.len()));
        assert(utf16(b.drop_last()) =~= t.take(t.len() - uy.len()));
        utf16_is_injective(a.drop_last(), b.drop_last());
        assert(a =~= a.drop_last().push(x));
        assert(b =~= b.drop_last().push(y));
    }
}

/// Bytes determine the code units, and there are two for each.
pub proof fn low_byte_first_is_injective(a: Seq<u16>, b: Seq<u16>)
    requires
        low_byte_first(a) == low_byte_first(b),
    ensures
        a == b,
        low_byte_first(a).len() == 2 * a.len(),
    decreases a.len(),
{
    let s = low_byte_first(a);
    let t = low_byte_first(b);
    if a.len() == 0 {
        if b.len() > 0 {
            assert(t.len() > 0);
        }
        assert(a =~= b);
    } else if b.len() == 0 {
        assert(s.len() > 0);
    } else {
        assert(s[s.len() - 2] == (a.last() % 256) as u8);
        assert(s[s.len() - 1] == (a.last() / 256) as u8);
        assert(t[t.len() - 2] == (b.last() % 256) as u8);
        assert(t[t.len() - 1] == (b.last() / 256) as u8);
        assert(a.last() == b.last());
        assert(low_byte_first(a.drop_last()) =~= s.take(s.len() - 2));
        assert(low_byte_first(b.drop_last()) =~= t.take(t.len() - 2));
        low_byte_first_is_injective(a.drop_last(), b.drop_last());
        assert(a =~= a.drop_last().push(a.last()));
        assert(b =~= b.drop_last().push(b.last()));
    }
}

/// The registry data determines the executable it starts.
pub proof fn run_entry_is_faithful(exe: Seq<char>, other: Seq<char>)
    requires
        low_byte_first(utf16(command_line(exe)).push(0)) == low_byte_first(
            utf16(command_line(other)).push(0),
        ),
    ensures
        exe == other,
{
    let a = utf16(command_line(exe));
    let b = utf16(command_line(other));
    low_byte_first_is_injective(a.push(0), b.push(0));
    assert(a =~= a.push(0).drop_last());
    assert(b =~= b.push(0).drop_last());
    utf16_is_injective(command_line(exe), command_line(other));
    command_names_the_executable(exe);
    command_names_the_executable(other);
}

/// Once the registry data is written, a query that finds it takes the entry for
/// present: it is longer than the zero that ends an empty text.
pub proof fn written_entry_counts_as_enabled(exe: Seq<char>)
    ensures
        low_byte_first(utf16(command_line(exe)).push(0)).len() > 2,
{
    let units = utf16(command_line(exe));
    low_byte_first_is_injective(units.push(0), units.push(0));
    reveal_with_fuel(utf16, 2);
    lemma_units(command_line(exe).last());
}


/// Each code unit is read back from its two bytes, the low one first.
pub proof fn bytes_read_back(units: Seq<u16>)
    ensures
        low_byte_first(units).len() == 2 * units.len(),
        forall|i: int|
            0 <= i < units.len() ==> low_byte_first(units)[2 * i] + 256 * low_byte_first(
                units,
            )[2 * i + 1] == #[trigger] units[i],
    decreases units.len(),
{
    if units.len() > 0 {
        let rest = units.drop_last();
        let bytes = low_byte_first(units);
        bytes_read_back(rest);
        assert forall|i: int| 0 <= i < units.len() implies bytes[2 * i] + 256 * bytes[2 * i + 1]
            == #[trigger] units[i] by {
            if i < rest.len() {
                assert(rest[i] == units[i]);
                assert(bytes[2 * i] == low_byte_first(rest)[2 * i]);
                assert(bytes[2 * i + 1] == low_byte_first(rest)[2 * i + 1]);
            }
        }
    }
}

/// The text that code units stand for: a unit stands for the character of its
/// number, and two surrogates together for one beyond the first plane.
pub open spec fn utf16_read(units: Seq<u16>) -> Seq<char>
    decreases units.len(),
{
    let n = units.len();
    if n == 0 {
        Seq::empty()
    } else if n >= 2 && 0xd800 <= units[n - 2] < 0xdc00 && 0xdc00 <= units[n - 1] < 0xe000 {
        utf16_read(units.take(n - 2)).push(
            (0x10000 + (units[n - 2] - 0xd800) * 0x400 + (units[n - 1] - 0xdc00)) as char,
        )
    } else {
        utf16_read(units.drop_last()).push(units[n - 1] as char)
    }
}

proof fn lemma_char_reads_back(c: char)
    ensures
        ({
            let u = utf16_units(c);
            ||| u.len() == 1 && u[0] as char == c && !(0xd800 <= u[0] < 0xe000)
            ||| u.len() == 2 && 0xd800 <= u[0] < 0xdc00 && 0xdc00 <= u[1] < 0xe000 && (0x10000 + (
            u[0] - 0xd800) * 0x400 + (u[1] - 0xdc00)) as char == c
        }),
{
    let n = c as u32;
    if n >= 0x10000 {
        let u = utf16_units(c);
        assert(0x10000 + (u[0] - 0xd800) * 0x400 + (u[1] - 0xdc00) == n);
    }
}

/// Every text is read back from its code units.
pub proof fn utf16_reads_back(s: Seq<char>)
    ensures
        utf16_read(utf16(s)) == s,
    decreases s.len(),
{
    if s.len() > 0 {
        let rest = s.drop_last();
        let c = s.last();
        let units = utf16(s);
        utf16_reads_back(rest);
        lemma_char_reads_back(c);
        let n = units.len();
        let u = utf16_units(c);
        if u.len() == 1 {
            assert(units.last() == u[0]);
            assert(units.drop_last() =~= utf16(rest));
        } else {
            assert(units[n - 2] == u[0]);
            assert(units[n - 1] == u[1]);
            assert(units.take(n - 2) =~= utf16(rest));
        }
        assert(utf16_read(units) == utf16_read(utf16(rest)).push(c));
        assert(s =~= rest.push(c));
    } else {
        assert(s =~= Seq::<char>::empty());
    }
}

/// Reading the registry data as Windows does, code units with the low byte first
/// up to a zero at the end, gives the command; and PowerShell reads the path of
/// the executable from it.
pub proof fn entry_is_read_as_the_command(exe: Seq<char>, units: Seq<u16>)
    requires
        entry_data(exe).len() == 2 * units.len(),
        forall|i: int|
            0 <= i < units.len() ==> #[trigger] units[i] == entry_data(exe)[2 * i] + 256
                * entry_data(exe)[2 * i + 1],
    ensures
        units.len() > 0,
        units.last() == 0,
        utf16_read(units.drop_last()) == command_line(exe),
        literal_read(
            utf16_read(units.drop_last()).skip(command_head().len() as int),
        ) == Some((exe, command_tail())),
{
    let written = utf16(command_line(exe)).push(0);
    bytes_read_back(written);
    assert forall|i: int| 0 <= i < units.len() implies units[i] == written[i] by {
        let w = written[i];
    }
    assert(units =~= written);
    assert(units.drop_last() =~= utf16(command_line(exe)));
    utf16_reads_back(command_line(exe));
    command_names_the_executable(exe);
}

/// A text that was written to the registry is found there exactly if it is not
/// empty: the zero behind it does not count. Nothing is found where the query
/// failed or the value is no text, and more bytes do not make it less.
pub proof fn written_text_is_found(value: Seq<char>, status: u32, kind: u32, bytes: u32, more: u32)
    requires
        low_byte_first(utf16(value).push(0)).len() <= u32::MAX,
        bytes <= more,
    ensures
        text_found(0, 1, low_byte_first(utf16(value).push(0)).len() as u32) <==> value.len() > 0,
        status != 0 || kind != 1 ==> !text_found(status, kind, bytes),
        text_found(status, kind, bytes) ==> text_found(status, kind, more),
        !text_found(0, 1, bytes) ==> bytes <= 2,
{
    bytes_read_back(utf16(value).push(0));
    if value.len() > 0 {
        lemma_units(value.last());
    }
}

/// A status other than that of success comes back as the error, and only that.
pub proof fn status_is_kept(status: u32)
    ensures
        status_outcome(status) is Ok <==> status == 0,
        status_outcome(status) matches Err(e) ==> e == status,
{
}

/// What the user sees of a launch: an entry that is there is written again
/// without a word, a dismissed question stays away, and after the question the
/// one action that was chosen is carried out and told, once.
pub proof fn launch_tells_what_was_chosen(desk: Desk, chosen: Option<usize>)
    ensures
        ({
            let actions = dialogue(desk, PromptEvent::Launched, chosen, 5);
            let asked = !desk.enabled && !desk.dismissed;
            &&& actions.contains(PromptAction::RefreshEntry) <==> desk.enabled
            &&& actions.contains(PromptAction::AddEntry) <==> asked && chosen == Some(2usize)
            &&& actions.contains(PromptAction::DismissForever) <==> asked && chosen == Some(1usize)
            &&& forall|i: int|
                0 <= i < actions.len() ==> ((#[trigger] actions[i]).told() is Some <==> asked && i
                    == 3)
            &&& asked ==> actions[3].told() == Some(
                if chosen == Some(1usize) {
                    "Autostart question disabled.\n"@
                } else if chosen == Some(2usize) {
                    "mousee was added to Windows autostart.\n"@
                } else {
                    "Autostart was not changed.\n"@
                },
            )
        }),
{
    lemma_launch_actions(desk, chosen);
    let actions = dialogue(desk, PromptEvent::Launched, chosen, 5);
    assert(actions[0] == PromptAction::QueryEnabled);
    assert(desk.enabled ==> actions[1] == PromptAction::RefreshEntry);
    if !desk.enabled && !desk.dismissed {
        assert(actions[3] == next_action(PromptEvent::Chosen(chosen)));
    }
}

} // verus!
