//! The command line.

use crate::keyboard::KeyEvent;
use crate::number;
use crate::session::Workspace;
use crate::shortcut;
use crate::text;
use crate::toplevel::{StateChange, Toplevel};
use vstd::prelude::*;

verus! {

/// How the program is used.
pub const USAGE: &'static str = "usage: kando-cosmic-helper setup | doctor\n       kando-cosmic-helper [daemon] [--exit-with-parent] [--pointer-timeout-ms N]\n       kando-cosmic-helper pointer [timeout-ms]\n       kando-cosmic-helper workarea [timeout-ms]\n       kando-cosmic-helper move <dx> <dy>\n       kando-cosmic-helper windows\n       kando-cosmic-helper focused\n       kando-cosmic-helper focus <app_id> <title>\n       kando-cosmic-helper state <app_id>|@focused <title> fullscreen|unfullscreen|maximize|unmaximize|toggle-maximize|minimize|unminimize|toggle-sticky|close\n       kando-cosmic-helper workspace list | goto <name> | send <name> | take <name> | forget <name>\n       kando-cosmic-helper keys <x11keycode:down|up[:delay-ms]>...";

/// How many milliseconds to wait for the pointer unless the command line says otherwise.
pub const POINTER_TIMEOUT: u64 = 500;

/// What the command line asks for.
pub enum Command {
    Daemon { exit_with_parent: bool, pointer_timeout: u64 },
    Setup,
    Doctor,
    Pointer { timeout: u64 },
    WorkArea { timeout: u64 },
    /// The distances are still to be read as numbers.
    Move { dx: String, dy: String },
    Windows,
    Focused,
    Focus { app_id: String, title: String },
    State { app_id: String, title: String, change: StateChange },
    ListWorkspaces,
    Goto(String),
    Send { name: String, follow: bool },
    Forget(String),
    Keys(Vec<KeyEvent>),
}

/// What a `Command` says.
#[verifier::ext_equal]
pub enum CommandView {
    Daemon { exit_with_parent: bool, pointer_timeout: u64 },
    Setup,
    Doctor,
    Pointer { timeout: u64 },
    WorkArea { timeout: u64 },
    Move { dx: Seq<char>, dy: Seq<char> },
    Windows,
    Focused,
    Focus { app_id: Seq<char>, title: Seq<char> },
    State { app_id: Seq<char>, title: Seq<char>, change: StateChange },
    ListWorkspaces,
    Goto(Seq<char>),
    Send { name: Seq<char>, follow: bool },
    Forget(Seq<char>),
    Keys(Seq<KeyEvent>),
}

impl View for Command {
    type V = CommandView;

    open spec fn view(&self) -> CommandView {
        match self {
            Command::Daemon { exit_with_parent, pointer_timeout } => CommandView::Daemon {
                exit_with_parent: *exit_with_parent,
                pointer_timeout: *pointer_timeout,
            },
            Command::Setup => CommandView::Setup,
            Command::Doctor => CommandView::Doctor,
            Command::Pointer { timeout } => CommandView::Pointer { timeout: *timeout },
            Command::WorkArea { timeout } => CommandView::WorkArea { timeout: *timeout },
            Command::Move { dx, dy } => CommandView::Move { dx: dx@, dy: dy@ },
            Command::Windows => CommandView::Windows,
            Command::Focused => CommandView::Focused,
            Command::Focus { app_id, title } => CommandView::Focus {
                app_id: app_id@,
                title: title@,
            },
            Command::State { app_id, title, change } => CommandView::State {
                app_id: app_id@,
                title: title@,
                change: *change,
            },
            Command::ListWorkspaces => CommandView::ListWorkspaces,
            Command::Goto(name) => CommandView::Goto(name@),
            Command::Send { name, follow } => CommandView::Send { name: name@, follow: *follow },
            Command::Forget(name) => CommandView::Forget(name@),
            Command::Keys(keys) => CommandView::Keys(keys@),
        }
    }
}

/// The argument at an index; an empty one if there are fewer.
pub open spec fn arg_or_empty(args: Seq<Seq<char>>, i: int) -> Seq<char> {
    if i < args.len() {
        args[i]
    } else {
        seq![]
    }
}

/// The number that an argument denotes, if it fits into 64 bits.
pub open spec fn millis(arg: Seq<char>) -> Option<u64> {
    match number::unsigned_value(arg) {
        Some(n) => if n <= u64::MAX {
            Some(n as u64)
        } else {
            None
        },
        None => None,
    }
}

/// The timeout at an index; the default if there is none that can be read.
pub open spec fn timeout_at(args: Seq<Seq<char>>, i: int) -> u64 {
    match millis(arg_or_empty(args, i)) {
        Some(n) => n,
        None => POINTER_TIMEOUT,
    }
}

/// The flags of the daemon, if all of them are known.
pub open spec fn daemon_flags(
    args: Seq<Seq<char>>,
    exit_with_parent: bool,
    pointer_timeout: u64,
) -> Option<CommandView>
    decreases args.len(),
{
    if args.len() == 0 {
        Some(CommandView::Daemon { exit_with_parent, pointer_timeout })
    } else if args[0] == "--exit-with-parent"@ {
        daemon_flags(args.skip(1), true, pointer_timeout)
    } else if args[0] == "--pointer-timeout-ms"@ {
        match millis(arg_or_empty(args, 1)) {
            Some(n) => daemon_flags(args.skip(1).skip(1), exit_with_parent, n),
            None => None,
        }
    } else {
        None
    }
}

/// The change of a window that a word stands for.
pub open spec fn change_of(word: Seq<char>) -> Option<StateChange> {
    if word == "fullscreen"@ {
        Some(StateChange::Fullscreen)
    } else if word == "unfullscreen"@ {
        Some(StateChange::Unfullscreen)
    } else if word == "maximize"@ {
        Some(StateChange::Maximize)
    } else if word == "unmaximize"@ {
        Some(StateChange::Unmaximize)
    } else if word == "toggle-maximize"@ {
        Some(StateChange::ToggleMaximize)
    } else if word == "minimize"@ {
        Some(StateChange::Minimize)
    } else if word == "unminimize"@ {
        Some(StateChange::Unminimize)
    } else if word == "toggle-sticky"@ {
        Some(StateChange::ToggleSticky)
    } else if word == "close"@ {
        Some(StateChange::Close)
    } else {
        None
    }
}

/// The number that a text denotes, if it fits into 32 bits.
pub open spec fn small_number(t: Seq<char>) -> Option<i32> {
    match number::signed_value(t) {
        Some(n) => if i32::MIN <= n <= i32::MAX {
            Some(n as i32)
        } else {
            None
        },
        None => None,
    }
}

/// The key that an argument stands for: its code, whether it goes down or up, and how many
/// milliseconds to wait before, which are none unless they can be read.
pub open spec fn key_of(arg: Seq<char>) -> Option<KeyEvent> {
    let parts = text::split(arg, ':');
    let delay_ms = match small_number(arg_or_empty(parts, 2)) {
        Some(n) => n,
        None => 0,
    };
    match small_number(arg_or_empty(parts, 0)) {
        Some(keycode) => if arg_or_empty(parts, 1) == "down"@ {
            Some(KeyEvent { keycode, down: true, delay_ms })
        } else if arg_or_empty(parts, 1) == "up"@ {
            Some(KeyEvent { keycode, down: false, delay_ms })
        } else {
            None
        },
        None => None,
    }
}

/// The keys that a list of arguments stands for, if all of them can be read.
pub open spec fn keys_of(args: Seq<Seq<char>>) -> Option<Seq<KeyEvent>>
    decreases args.len(),
{
    if args.len() == 0 {
        Some(seq![])
    } else {
        match (keys_of(args.drop_last()), key_of(args.last())) {
            (Some(keys), Some(key)) => Some(keys.push(key)),
            _ => None,
        }
    }
}

/// The request for workspaces that the arguments behind the first one stand for.
pub open spec fn workspace_request(args: Seq<Seq<char>>) -> Option<CommandView> {
    let request = arg_or_empty(args, 1);
    if request == "list"@ {
        Some(CommandView::ListWorkspaces)
    } else if args.len() < 3 {
        None
    } else if request == "goto"@ {
        Some(CommandView::Goto(args[2]))
    } else if request == "send"@ {
        Some(CommandView::Send { name: args[2], follow: false })
    } else if request == "take"@ {
        Some(CommandView::Send { name: args[2], follow: true })
    } else if request == "forget"@ {
        Some(CommandView::Forget(args[2]))
    } else {
        None
    }
}

/// What the command line asks for, if it can be read. Without a command the program is the
/// daemon.
pub open spec fn command(args: Seq<Seq<char>>) -> Option<CommandView> {
    if args.len() == 0 {
        daemon_flags(args, false, POINTER_TIMEOUT)
    } else {
        let first = args[0];
        if first == "daemon"@ {
            daemon_flags(args.skip(1), false, POINTER_TIMEOUT)
        } else if text::begins_with(first, "--"@) {
            daemon_flags(args, false, POINTER_TIMEOUT)
        } else if first == "setup"@ {
            Some(CommandView::Setup)
        } else if first == "doctor"@ {
            Some(CommandView::Doctor)
        } else if first == "pointer"@ {
            Some(CommandView::Pointer { timeout: timeout_at(args, 1) })
        } else if first == "workarea"@ {
            Some(CommandView::WorkArea { timeout: timeout_at(args, 1) })
        } else if first == "move"@ {
            if args.len() >= 3 {
                Some(CommandView::Move { dx: args[1], dy: args[2] })
            } else {
                None
            }
        } else if first == "windows"@ {
            Some(CommandView::Windows)
        } else if first == "focused"@ {
            Some(CommandView::Focused)
        } else if first == "focus"@ {
            Some(
                CommandView::Focus {
                    app_id: arg_or_empty(args, 1),
                    title: arg_or_empty(args, 2),
                },
            )
        } else if first == "state"@ {
            match change_of(arg_or_empty(args, 3)) {
                Some(change) => Some(
                    CommandView::State {
                        app_id: arg_or_empty(args, 1),
                        title: arg_or_empty(args, 2),
                        change,
                    },
                ),
                None => None,
            }
        } else if first == "workspace"@ {
            workspace_request(args)
        } else if first == "keys"@ {
            match keys_of(args.skip(1)) {
                Some(keys) => Some(CommandView::Keys(keys)),
                None => None,
            }
        } else {
            None
        }
    }
}

/// What an optional command says.
pub open spec fn command_view(c: Option<Command>) -> Option<CommandView> {
    match c {
        Some(c) => Some(c@),
        None => None,
    }
}

fn get(args: &Vec<String>, i: usize) -> (r: String)
    ensures
        r@ == arg_or_empty(text::views(args@), i as int),
{
    if i < args.len() {
        args[i].clone()
    } else {
        let r = String::new();
        assert(r@ =~= seq![]);
        r
    }
}

fn timeout_of(args: &Vec<String>) -> (r: u64)
    ensures
        r == timeout_at(text::views(args@), 1),
{
    match number::parse_unsigned(&get(args, 1), u64::MAX) {
        Some(n) => n,
        None => POINTER_TIMEOUT,
    }
}

/// Reads the flags of the daemon, which begin with the argument at an index.
pub fn daemon(args: &Vec<String>, from: usize) -> (r: Option<Command>)
    requires
        from <= args@.len(),
    ensures
        command_view(r) == daemon_flags(
            text::views(args@).skip(from as int),
            false,
            POINTER_TIMEOUT,
        ),
{
    let ghost all = text::views(args@);
    let mut pointer_timeout: u64 = POINTER_TIMEOUT;
    let mut exit_with_parent = false;
    let mut i: usize = from;
    while i < args.len()
        invariant
            i <= args@.len(),
            all == text::views(args@),
            daemon_flags(all.skip(i as int), exit_with_parent, pointer_timeout) == daemon_flags(
                all.skip(from as int),
                false,
                POINTER_TIMEOUT,
            ),
        decreases args@.len() - i,
    {
        let ghost rest = all.skip(i as int);
        proof {
            assert(rest[0] == args@[i as int]@);
            assert(rest.skip(1) =~= all.skip(i + 1));
            assert(arg_or_empty(rest, 1) == arg_or_empty(all, i + 1));
            if i + 1 < all.len() {
                assert(rest.skip(1).skip(1) =~= all.skip(i + 2));
            } else {
                assert(number::unsigned_value(seq![]) is None);
            }
        }
        if text::same(&args[i], "--exit-with-parent") {
            exit_with_parent = true;
            i += 1;
        } else if text::same(&args[i], "--pointer-timeout-ms") {
            match number::parse_unsigned(&get(args, i + 1), u64::MAX) {
                Some(n) => {
                    pointer_timeout = n;
                },
                None => {
                    return None;
                },
            }
            i += 2;
        } else {
            return None;
        }
    }
    assert(all.skip(i as int) =~= seq![]);
    Some(Command::Daemon { exit_with_parent, pointer_timeout })
}

fn parse_change(word: &str) -> (r: Option<StateChange>)
    ensures
        r == change_of(word@),
{
    if text::same(word, "fullscreen") {
        Some(StateChange::Fullscreen)
    } else if text::same(word, "unfullscreen") {
        Some(StateChange::Unfullscreen)
    } else if text::same(word, "maximize") {
        Some(StateChange::Maximize)
    } else if text::same(word, "unmaximize") {
        Some(StateChange::Unmaximize)
    } else if text::same(word, "toggle-maximize") {
        Some(StateChange::ToggleMaximize)
    } else if text::same(word, "minimize") {
        Some(StateChange::Minimize)
    } else if text::same(word, "unminimize") {
        Some(StateChange::Unminimize)
    } else if text::same(word, "toggle-sticky") {
        Some(StateChange::ToggleSticky)
    } else if text::same(word, "close") {
        Some(StateChange::Close)
    } else {
        None
    }
}

fn parse_key(arg: &str) -> (r: Option<KeyEvent>)
    ensures
        r == key_of(arg@),
{
    let parts = text::split_at_char(arg, ':');
    let delay_ms: i32 = match number::parse_i32(&get(&parts, 2)) {
        Some(n) => n,
        None => 0,
    };
    let direction = get(&parts, 1);
    match number::parse_i32(&get(&parts, 0)) {
        Some(keycode) => if text::same(&direction, "down") {
            Some(KeyEvent { keycode, down: true, delay_ms })
        } else if text::same(&direction, "up") {
            Some(KeyEvent { keycode, down: false, delay_ms })
        } else {
            None
        },
        None => None,
    }
}

proof fn lemma_keys_fail(args: Seq<Seq<char>>, i: int)
    requires
        0 <= i < args.len(),
        key_of(args[i]) is None,
    ensures
        keys_of(args) is None,
    decreases args.len(),
{
    if i < args.len() - 1 {
        assert(args.drop_last()[i] == args[i]);
        lemma_keys_fail(args.drop_last(), i);
    }
}

fn parse_keys(args: &Vec<String>, from: usize) -> (r: Option<Vec<KeyEvent>>)
    requires
        from <= args@.len(),
    ensures
        match r {
            Some(keys) => keys_of(text::views(args@).skip(from as int)) == Some(keys@),
            None => keys_of(text::views(args@).skip(from as int)) is None,
        },
{
    let ghost all = text::views(args@).skip(from as int);
    let mut keys: Vec<KeyEvent> = Vec::new();
    let mut i: usize = from;
    assert(all.take(0) =~= seq![]);
    while i < args.len()
        invariant
            from <= i <= args@.len(),
            all == text::views(args@).skip(from as int),
            keys_of(all.take(i - from)) == Some(keys@),
        decreases args@.len() - i,
    {
        proof {
            assert(all[i - from] == args@[i as int]@);
            assert(all.take(i - from + 1).drop_last() =~= all.take(i - from));
        }
        match parse_key(&args[i]) {
            Some(key) => keys.push(key),
            None => {
                proof {
                    lemma_keys_fail(all, i - from);
                }
                return None;
            },
        }
        i += 1;
    }
    assert(all.take(i - from) =~= all);
    Some(keys)
}

fn parse_workspace(args: &Vec<String>) -> (r: Option<Command>)
    ensures
        command_view(r) == workspace_request(text::views(args@)),
{
    let request = get(args, 1);
    if text::same(&request, "list") {
        return Some(Command::ListWorkspaces);
    }
    if args.len() < 3 {
        return None;
    }
    let name = args[2].clone();
    if text::same(&request, "goto") {
        Some(Command::Goto(name))
    } else if text::same(&request, "send") {
        Some(Command::Send { name, follow: false })
    } else if text::same(&request, "take") {
        Some(Command::Send { name, follow: true })
    } else if text::same(&request, "forget") {
        Some(Command::Forget(name))
    } else {
        None
    }
}

/// Reads the command line; nothing if it cannot be read.
pub fn parse(args: &Vec<String>) -> (r: Option<Command>)
    ensures
        command_view(r) == command(text::views(args@)),
{
    assert(text::views(args@).skip(0) =~= text::views(args@));
    if args.len() == 0 {
        return daemon(args, 0);
    }
    let first = &args[0];
    if text::same(first, "daemon") {
        daemon(args, 1)
    } else if text::starts_with(first, "--") {
        daemon(args, 0)
    } else if text::same(first, "setup") {
        Some(Command::Setup)
    } else if text::same(first, "doctor") {
        Some(Command::Doctor)
    } else if text::same(first, "pointer") {
        Some(Command::Pointer { timeout: timeout_of(args) })
    } else if text::same(first, "workarea") {
        Some(Command::WorkArea { timeout: timeout_of(args) })
    } else if text::same(first, "move") {
        if args.len() >= 3 {
            Some(Command::Move { dx: args[1].clone(), dy: args[2].clone() })
        } else {
            None
        }
    } else if text::same(first, "windows") {
        Some(Command::Windows)
    } else if text::same(first, "focused") {
        Some(Command::Focused)
    } else if text::same(first, "focus") {
        Some(Command::Focus { app_id: get(args, 1), title: get(args, 2) })
    } else if text::same(first, "state") {
        match parse_change(&get(args, 3)) {
            Some(change) => Some(
                Command::State { app_id: get(args, 1), title: get(args, 2), change },
            ),
            None => None,
        }
    } else if text::same(first, "workspace") {
        parse_workspace(args)
    } else if text::same(first, "keys") {
        match parse_keys(args, 1) {
            Some(keys) => Some(Command::Keys(keys)),
            None => None,
        }
    } else {
        None
    }
}

/// The mark of what is active.
pub open spec fn mark(active: bool) -> Seq<char> {
    if active {
        "*"@
    } else {
        " "@
    }
}

/// A line of a list: the mark, and two texts.
pub fn marked_line(active: bool, first: &str, second: &str) -> (r: String)
    ensures
        r@ == mark(active) + "\t"@ + first@ + "\t"@ + second@,
{
    let mut r = if active {
        "*".to_owned()
    } else {
        " ".to_owned()
    };
    r.append("\t");
    r.append(first);
    r.append("\t");
    r.append(second);
    r
}

/// The line for a window in the list of windows.
pub fn window_line(t: &Toplevel) -> (r: String)
    ensures
        r@ == mark(t.activated) + "\t"@ + shortcut::quoted_text(t.app_id@) + "\t"@
            + shortcut::quoted_text(t.title@),
{
    marked_line(t.activated, &shortcut::quoted(&t.app_id), &shortcut::quoted(&t.title))
}

/// The line for a workspace in the list of workspaces.
pub fn workspace_line(w: &Workspace) -> (r: String)
    ensures
        r@ == mark(w.active) + "\t"@ + shortcut::quoted_text(w.name@) + "\t"@
            + shortcut::quoted_text(w.id@),
{
    marked_line(w.active, &shortcut::quoted(&w.name), &shortcut::quoted(&w.id))
}

/// The line for the focused window.
pub fn focused_line(t: &Option<Toplevel>) -> (r: String)
    ensures
        r@ == match *t {
            Some(t) => shortcut::quoted_text(t.app_id@) + "\t"@ + shortcut::quoted_text(t.title@),
            None => "(no focused toplevel)"@,
        },
{
    match t {
        Some(t) => {
            let mut r = shortcut::quoted(&t.app_id);
            r.append("\t");
            r.append(&shortcut::quoted(&t.title));
            r
        },
        None => "(no focused toplevel)".to_owned(),
    }
}

/// Keys are read in the order in which they are given, and one that cannot be read spoils the
/// command line.
pub proof fn law_keys_are_read_in_order(args: Seq<Seq<char>>)
    ensures
        keys_of(args) is Some <==> forall|i: int|
            0 <= i < args.len() ==> key_of(#[trigger] args[i]) is Some,
        keys_of(args) matches Some(keys) ==> keys.len() == args.len() && forall|i: int|
            0 <= i < args.len() ==> key_of(args[i]) == Some(#[trigger] keys[i]),
    decreases args.len(),
{
    if args.len() > 0 {
        let fewer = args.drop_last();
        law_keys_are_read_in_order(fewer);
        assert forall|i: int| 0 <= i < fewer.len() implies fewer[i] == #[trigger] args[i] by {
        }
        assert(args[args.len() - 1] == args.last());
        if keys_of(args) is Some {
            assert forall|i: int| 0 <= i < args.len() implies key_of(#[trigger] args[i]) is Some by {
                if i < fewer.len() {
                    assert(key_of(fewer[i]) is Some);
                }
            }
            let keys = keys_of(args)->0;
            let before = keys_of(fewer)->0;
            assert forall|i: int| 0 <= i < args.len() implies key_of(args[i]) == Some(
                #[trigger] keys[i],
            ) by {
                if i < fewer.len() {
                    assert(keys[i] == before[i]);
                    assert(key_of(fewer[i]) == Some(before[i]));
                }
            }
        } else if forall|i: int| 0 <= i < args.len() ==> key_of(#[trigger] args[i]) is Some {
            assert forall|i: int| 0 <= i < fewer.len() implies key_of(
                #[trigger] fewer[i],
            ) is Some by {
                assert(args[i] == fewer[i]);
            }
            assert(key_of(args.last()) is Some);
        }
    }
}

/// The first words of the commands differ from each other, and none of them begins like a flag.
proof fn lemma_first_words()
    ensures
        ({
            let words = seq![
                "daemon"@,
                "setup"@,
                "doctor"@,
                "pointer"@,
                "workarea"@,
                "move"@,
                "windows"@,
                "focused"@,
                "focus"@,
                "state"@,
                "workspace"@,
                "keys"@,
            ];
            &&& forall|i: int, j: int|
                0 <= i < j < words.len() ==> #[trigger] words[i] != #[trigger] words[j]
            &&& forall|i: int|
                0 <= i < words.len() ==> !text::begins_with(#[trigger] words[i], "--"@)
        }),
{
    reveal_strlit("daemon");
    reveal_strlit("setup");
    reveal_strlit("doctor");
    reveal_strlit("pointer");
    reveal_strlit("workarea");
    reveal_strlit("move");
    reveal_strlit("windows");
    reveal_strlit("focused");
    reveal_strlit("focus");
    reveal_strlit("state");
    reveal_strlit("workspace");
    reveal_strlit("keys");
    reveal_strlit("--");
    let words = seq![
        "daemon"@,
        "setup"@,
        "doctor"@,
        "pointer"@,
        "workarea"@,
        "move"@,
        "windows"@,
        "focused"@,
        "focus"@,
        "state"@,
        "workspace"@,
        "keys"@,
    ];
    assert("daemon"@[1] == 'a' && "doctor"@[1] == 'o');
    assert("setup"@[1] == 'e' && "focus"@[0] == 'f' && "state"@[1] == 't');
    assert("pointer"@[0] == 'p' && "windows"@[0] == 'w' && "focused"@[0] == 'f');
    assert("move"@[0] == 'm' && "keys"@[0] == 'k');
    assert forall|i: int| 0 <= i < words.len() implies !text::begins_with(
        #[trigger] words[i],
        "--"@,
    ) by {
        assert(words[i][0] != '-');
        if text::begins_with(words[i], "--"@) {
            assert(words[i].subrange(0, 2)[0] == "--"@[0]);
        }
    }
}

/// The first word decides what is done, and each has its own meaning: no command comes of
/// another word, and a flag or no word at all starts the daemon.
pub proof fn law_first_word_decides(args: Seq<Seq<char>>)
    ensures
        args.len() == 0 ==> command(args) == Some(
            CommandView::Daemon { exit_with_parent: false, pointer_timeout: 500 },
        ),
        args.len() > 0 ==> (command(args) matches Some(c) ==> match c {
            CommandView::Daemon { .. } => args[0] == "daemon"@ || text::begins_with(
                args[0],
                "--"@,
            ),
            CommandView::Setup => args[0] == "setup"@,
            CommandView::Doctor => args[0] == "doctor"@,
            CommandView::Pointer { .. } => args[0] == "pointer"@,
            CommandView::WorkArea { .. } => args[0] == "workarea"@,
            CommandView::Move { .. } => args[0] == "move"@,
            CommandView::Windows => args[0] == "windows"@,
            CommandView::Focused => args[0] == "focused"@,
            CommandView::Focus { .. } => args[0] == "focus"@,
            CommandView::State { .. } => args[0] == "state"@,
            CommandView::ListWorkspaces => args[0] == "workspace"@,
            CommandView::Goto(_) => args[0] == "workspace"@,
            CommandView::Send { .. } => args[0] == "workspace"@,
            CommandView::Forget(_) => args[0] == "workspace"@,
            CommandView::Keys(_) => args[0] == "keys"@,
        }),
{
    if args.len() > 0 {
        if args[0] == "daemon"@ {
            lemma_daemon_only(args.skip(1), false, POINTER_TIMEOUT);
        } else {
            lemma_daemon_only(args, false, POINTER_TIMEOUT);
        }
    }
}

proof fn lemma_daemon_only(args: Seq<Seq<char>>, exit_with_parent: bool, pointer_timeout: u64)
    ensures
        daemon_flags(args, exit_with_parent, pointer_timeout) matches Some(c) ==> c is Daemon,
    decreases args.len(),
{
    if args.len() > 0 {
        lemma_daemon_only(args.skip(1), true, pointer_timeout);
        if let Some(n) = millis(arg_or_empty(args, 1)) {
            lemma_daemon_only(args.skip(1).skip(1), exit_with_parent, n);
        }
    }
}

/// Commands without arguments ignore what follows them. The others take theirs by their places:
/// those that may be left out are empty or the default then, and those that may not are missed.
pub proof fn law_arguments_are_taken_by_place(args: Seq<Seq<char>>)
    requires
        args.len() > 0,
    ensures
        ({
            let one = if args.len() > 1 { args[1] } else { seq![] };
            let two = if args.len() > 2 { args[2] } else { seq![] };
            let three = if args.len() > 3 { args[3] } else { seq![] };
            &&& args[0] == "setup"@ ==> command(args) == Some(CommandView::Setup)
            &&& args[0] == "doctor"@ ==> command(args) == Some(CommandView::Doctor)
            &&& args[0] == "windows"@ ==> command(args) == Some(CommandView::Windows)
            &&& args[0] == "focused"@ ==> command(args) == Some(CommandView::Focused)
            &&& args[0] == "pointer"@ ==> (command(args) matches Some(
                CommandView::Pointer { timeout },
            ) && timeout == timeout_at(args, 1))
            &&& args[0] == "workarea"@ ==> (command(args) matches Some(
                CommandView::WorkArea { timeout },
            ) && timeout == timeout_at(args, 1))
            &&& args[0] == "move"@ ==> if args.len() > 2 {
                command(args) == Some(CommandView::Move { dx: one, dy: two })
            } else {
                command(args) is None
            }
            &&& args[0] == "focus"@ ==> command(args) == Some(
                CommandView::Focus { app_id: one, title: two },
            )
            &&& args[0] == "state"@ ==> match change_of(three) {
                Some(change) => command(args) == Some(
                    CommandView::State { app_id: one, title: two, change },
                ),
                None => command(args) is None,
            }
            &&& args[0] == "keys"@ ==> match keys_of(args.skip(1)) {
                Some(keys) => command(args) == Some(CommandView::Keys(keys)),
                None => command(args) is None,
            }
        }),
{
    lemma_first_words();
    let words = seq![
        "daemon"@,
        "setup"@,
        "doctor"@,
        "pointer"@,
        "workarea"@,
        "move"@,
        "windows"@,
        "focused"@,
        "focus"@,
        "state"@,
        "workspace"@,
        "keys"@,
    ];
    assert(words[0] == "daemon"@ && words[1] == "setup"@ && words[2] == "doctor"@ && words[3]
        == "pointer"@ && words[4] == "workarea"@ && words[5] == "move"@ && words[6] == "windows"@
        && words[7] == "focused"@ && words[8] == "focus"@ && words[9] == "state"@ && words[10]
        == "workspace"@ && words[11] == "keys"@);
}

/// A request on workspaces is known by its second word: to list them needs no name, and
/// everything else needs one and takes it as it is. To take a window along is to send it and to
/// follow it, to send it is not to follow it.
pub proof fn law_workspace_requests_take_a_name(args: Seq<Seq<char>>)
    requires
        args.len() > 1,
        args[0] == "workspace"@,
    ensures
        args[1] == "list"@ ==> command(args) == Some(CommandView::ListWorkspaces),
        args.len() == 2 && args[1] != "list"@ ==> command(args) is None,
        args.len() > 2 && args[1] == "goto"@ ==> command(args) == Some(CommandView::Goto(args[2])),
        args.len() > 2 && args[1] == "send"@ ==> command(args) == Some(
            CommandView::Send { name: args[2], follow: false },
        ),
        args.len() > 2 && args[1] == "take"@ ==> command(args) == Some(
            CommandView::Send { name: args[2], follow: true },
        ),
        args.len() > 2 && args[1] == "forget"@ ==> command(args) == Some(
            CommandView::Forget(args[2]),
        ),
        args[1] != "list"@ && args[1] != "goto"@ && args[1] != "send"@ && args[1] != "take"@
            && args[1] != "forget"@ ==> command(args) is None,
{
    lemma_first_words();
    let words = seq![
        "daemon"@,
        "setup"@,
        "doctor"@,
        "pointer"@,
        "workarea"@,
        "move"@,
        "windows"@,
        "focused"@,
        "focus"@,
        "state"@,
        "workspace"@,
        "keys"@,
    ];
    assert(words[0] == "daemon"@ && words[1] == "setup"@ && words[2] == "doctor"@ && words[3]
        == "pointer"@ && words[4] == "workarea"@ && words[5] == "move"@ && words[6] == "windows"@
        && words[7] == "focused"@ && words[8] == "focus"@ && words[9] == "state"@ && words[10]
        == "workspace"@ && words[11] == "keys"@);
    reveal_strlit("list");
    reveal_strlit("goto");
    reveal_strlit("send");
    reveal_strlit("take");
    reveal_strlit("forget");
    assert("list"@[0] == 'l' && "goto"@[0] == 'g' && "send"@[0] == 's' && "take"@[0] == 't'
        && "forget"@[0] == 'f');
}

/// The daemon's flags are read one after the other, and of a flag that is given twice the last
/// counts: to exit with the parent stands alone, a time to wait takes the number behind it, and
/// anything else, or a time that cannot be read, spoils the command line. The word for the
/// daemon may be left out before a flag.
pub proof fn law_daemon_flags_are_read_in_order(
    rest: Seq<Seq<char>>,
    exit_with_parent: bool,
    pointer_timeout: u64,
    word: Seq<char>,
)
    ensures
        daemon_flags(seq![], exit_with_parent, pointer_timeout) == Some(
            CommandView::Daemon { exit_with_parent, pointer_timeout },
        ),
        daemon_flags(seq!["--exit-with-parent"@] + rest, exit_with_parent, pointer_timeout)
            == daemon_flags(rest, true, pointer_timeout),
        daemon_flags(
            seq!["--pointer-timeout-ms"@, word] + rest,
            exit_with_parent,
            pointer_timeout,
        ) == match number::unsigned_value(word) {
            Some(n) => if n <= u64::MAX {
                daemon_flags(rest, exit_with_parent, n as u64)
            } else {
                None
            },
            None => None,
        },
        daemon_flags(seq!["--pointer-timeout-ms"@], exit_with_parent, pointer_timeout) is None,
        word != "--exit-with-parent"@ && word != "--pointer-timeout-ms"@ ==> daemon_flags(
            seq![word] + rest,
            exit_with_parent,
            pointer_timeout,
        ) is None,
        command(seq!["daemon"@] + rest) == daemon_flags(rest, false, 500),
        text::begins_with(word, "--"@) ==> command(seq![word] + rest) == daemon_flags(
            seq![word] + rest,
            false,
            500,
        ),
{
    let exit = seq!["--exit-with-parent"@] + rest;
    assert(exit.skip(1) =~= rest);
    let wait = seq!["--pointer-timeout-ms"@, word] + rest;
    assert(wait.skip(1).skip(1) =~= rest);
    assert((seq!["daemon"@] + rest).skip(1) =~= rest);
    assert(arg_or_empty(seq!["--pointer-timeout-ms"@], 1) =~= seq![]);
    assert(number::unsigned_value(seq![]) is None);
    reveal_strlit("--exit-with-parent");
    reveal_strlit("--pointer-timeout-ms");
    reveal_strlit("daemon");
    reveal_strlit("--");
    assert("--exit-with-parent"@.len() != "--pointer-timeout-ms"@.len());
    assert("daemon"@[0] == 'd');
    assert((seq![word] + rest)[0] == word);
    if text::begins_with(word, "--"@) {
        assert(word.subrange(0, 2)[0] == word[0]);
        assert("--"@[0] == '-');
    }
}

/// A time to wait is the number that is given, if it is given and can be read, and otherwise
/// half a second.
pub proof fn law_given_times_are_waited(args: Seq<Seq<char>>, i: int, n: u64)
    requires
        0 <= i,
    ensures
        i < args.len() && args[i] == number::decimal(n as nat) ==> timeout_at(args, i) == n,
        i >= args.len() ==> timeout_at(args, i) == 500,
        i < args.len() && number::unsigned_value(args[i]) is None ==> timeout_at(args, i) == 500,
        i < args.len() && (number::unsigned_value(args[i]) matches Some(m) && m > u64::MAX)
            ==> timeout_at(args, i) == 500,
{
    number::law_numbers_are_read_back(n as nat, 0);
    assert(number::unsigned_value(seq![]) is None);
}

/// Each change of a window's state has one word, and nothing else is one.
pub proof fn law_changes_have_their_words(word: Seq<char>)
    ensures
        change_of(word) == Some(StateChange::Fullscreen) <==> word == "fullscreen"@,
        change_of(word) == Some(StateChange::Unfullscreen) <==> word == "unfullscreen"@,
        change_of(word) == Some(StateChange::Maximize) <==> word == "maximize"@,
        change_of(word) == Some(StateChange::Unmaximize) <==> word == "unmaximize"@,
        change_of(word) == Some(StateChange::ToggleMaximize) <==> word == "toggle-maximize"@,
        change_of(word) == Some(StateChange::Minimize) <==> word == "minimize"@,
        change_of(word) == Some(StateChange::Unminimize) <==> word == "unminimize"@,
        change_of(word) == Some(StateChange::ToggleSticky) <==> word == "toggle-sticky"@,
        change_of(word) == Some(StateChange::Close) <==> word == "close"@,
{
    reveal_strlit("fullscreen");
    reveal_strlit("unfullscreen");
    reveal_strlit("maximize");
    reveal_strlit("unmaximize");
    reveal_strlit("toggle-maximize");
    reveal_strlit("minimize");
    reveal_strlit("unminimize");
    reveal_strlit("toggle-sticky");
    reveal_strlit("close");
    assert("fullscreen"@[0] == 'f' && "unmaximize"@[0] == 'u' && "unmaximize"@[2] == 'm'
        && "unmaximize"@[3] == 'a' && "unminimize"@[3] == 'i');
    assert("maximize"@[1] == 'a' && "minimize"@[1] == 'i');
    assert("fullscreen"@.len() == 10 && "unfullscreen"@.len() == 12 && "maximize"@.len() == 8
        && "toggle-maximize"@.len() == 15 && "toggle-sticky"@.len() == 13 && "close"@.len() == 5);
}

/// A key is read from its code, its direction and its delay between colons. Its direction is
/// down or up in so many words; a delay that is left out or cannot be read is none; anything
/// behind the delay is ignored.
pub proof fn law_key_is_read_by_its_parts(
    code: Seq<char>,
    direction: Seq<char>,
    delay: Seq<char>,
    rest: Seq<char>,
)
    requires
        !code.contains(':'),
        !direction.contains(':'),
        !delay.contains(':'),
    ensures
        ({
            let short = code + seq![':'] + direction;
            let long = code + seq![':'] + (direction + seq![':'] + delay);
            let longer = code + seq![':'] + (direction + seq![':'] + (delay + seq![':'] + rest));
            let keycode = small_number(code);
            &&& key_of(code) is None
            &&& key_of(short) is Some <==> keycode is Some && (direction == "down"@ || direction
                == "up"@)
            &&& key_of(short) matches Some(k) ==> {
                &&& keycode == Some(k.keycode)
                &&& k.down <==> direction == "down"@
                &&& k.delay_ms == 0
            }
            &&& key_of(long) is Some <==> key_of(short) is Some
            &&& key_of(long) matches Some(k) ==> {
                &&& keycode == Some(k.keycode)
                &&& k.down <==> direction == "down"@
                &&& small_number(delay) is Some ==> small_number(delay) == Some(k.delay_ms)
                &&& small_number(delay) is None ==> k.delay_ms == 0
            }
            &&& key_of(longer) == key_of(long)
        }),
{
    let last = delay + seq![':'] + rest;
    text::law_split_is_taken_apart(code, direction, ':');
    text::law_split_is_taken_apart(code, direction + seq![':'] + delay, ':');
    text::law_split_is_taken_apart(direction, delay, ':');
    text::law_split_is_taken_apart(code, direction + seq![':'] + last, ':');
    text::law_split_is_taken_apart(direction, last, ':');
    text::law_split_is_taken_apart(delay, rest, ':');
    let short = text::split(code + seq![':'] + direction, ':');
    let long = text::split(code + seq![':'] + (direction + seq![':'] + delay), ':');
    let longer = text::split(code + seq![':'] + (direction + seq![':'] + last), ':');
    assert(short =~= seq![code, direction]);
    assert(long =~= seq![code, direction, delay]);
    assert(longer[0] == code && longer[1] == direction && longer[2] == delay);
    assert(small_number(seq![]) is None) by {
        assert(number::unsigned_value(seq![]) is None);
    }
    reveal_strlit("down");
    reveal_strlit("up");
    assert("down"@.len() == 4 && "up"@.len() == 2);
}

/// A number that is written out is read back, and what no such number denotes is not read.
pub proof fn law_small_numbers_are_read_back(n: i32, t: Seq<char>)
    ensures
        small_number(number::signed_decimal(n as int)) == Some(n),
        small_number(t) is Some <==> (number::signed_value(t) matches Some(i) && i32::MIN <= i
            <= i32::MAX),
        small_number(t) matches Some(i) ==> number::signed_value(t) == Some(i as int),
{
    number::law_numbers_are_read_back(0, n as int);
}

/// What is active is marked with a star, and what is not with a blank of the same width.
pub proof fn law_active_is_marked()
    ensures
        mark(true) == seq!['*'],
        mark(false) == seq![' '],
{
    reveal_strlit("*");
    reveal_strlit(" ");
    assert("*"@ =~= seq!['*']);
    assert(" "@ =~= seq![' ']);
}

} // verus!
