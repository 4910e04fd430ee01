use vstd::prelude::*;

use crate::nums::int_digits;
use crate::nums::int_literal_value;
use crate::nums::i32_to_string;
use crate::record::Record;
use crate::record::RecordView;
use crate::store::views_of;
use crate::text::push_spaces;
use crate::text::spaces;
use crate::text::str_eq;

verus! {

/// A command-line verb with its parsed arguments.
pub enum Command {
    Add(String, String),
    Del(Vec<i32>),
    Edit(i32, String, String),
    Show(Option<String>),
    Help,
    Serve,
}

/// The mathematical value of a [`Command`].
pub ghost enum CommandView {
    Add(Seq<char>, Seq<char>),
    Del(Seq<i32>),
    Edit(int, Seq<char>, Seq<char>),
    Show(Option<Seq<char>>),
    Help,
    Serve,
}

impl View for Command {
    type V = CommandView;

    open spec fn view(&self) -> CommandView {
        match self {
            Command::Add(n, p) => CommandView::Add(n@, p@),
            Command::Del(ids) => CommandView::Del(ids@),
            Command::Edit(id, n, p) => CommandView::Edit(*id as int, n@, p@),
            Command::Show(f) => CommandView::Show(
                match f {
                    Some(s) => Some(s@),
                    None => None,
                },
            ),
            Command::Help => CommandView::Help,
            Command::Serve => CommandView::Serve,
        }
    }
}

/// A fatal command-line error; the process prints the message and
/// exits with a non-zero status.
pub enum CliError {
    NoCommand,
    Invalid(String),
    UsageAdd,
    UsageDel,
    UsageEdit,
    UsageShow,
    BadId(String),
}

/// The mathematical value of a [`CliError`].
pub ghost enum CliErrorView {
    NoCommand,
    Invalid(Seq<char>),
    UsageAdd,
    UsageDel,
    UsageEdit,
    UsageShow,
    BadId(Seq<char>),
}

impl View for CliError {
    type V = CliErrorView;

    open spec fn view(&self) -> CliErrorView {
        match self {
            CliError::NoCommand => CliErrorView::NoCommand,
            CliError::Invalid(t) => CliErrorView::Invalid(t@),
            CliError::UsageAdd => CliErrorView::UsageAdd,
            CliError::UsageDel => CliErrorView::UsageDel,
            CliError::UsageEdit => CliErrorView::UsageEdit,
            CliError::UsageShow => CliErrorView::UsageShow,
            CliError::BadId(t) => CliErrorView::BadId(t@),
        }
    }
}

/// What each error prints.
pub open spec fn spec_cli_message(e: CliErrorView) -> Seq<char> {
    match e {
        CliErrorView::NoCommand => "no command supplied"@,
        CliErrorView::Invalid(t) => "invalid command: "@ + t,
        CliErrorView::UsageAdd => "Usage: phonebook add NAME PHONE"@,
        CliErrorView::UsageDel => "Usage: phonebook del ID..."@,
        CliErrorView::UsageEdit => "Usage: phonebook edit ID NAME PHONE"@,
        CliErrorView::UsageShow => "Usage: phonebook show [SUBSTRING]"@,
        CliErrorView::BadId(t) => "invalid id: "@ + t,
    }
}

impl CliError {
    /// The message this error prints.
    pub fn message(&self) -> (m: String)
        ensures
            m@ == spec_cli_message(self@),
    {
        match self {
            CliError::NoCommand => "no command supplied".to_owned(),
            CliError::Invalid(t) => {
                let mut m = "invalid command: ".to_owned();
                m.append(t.as_str());
                proof {
                    assert(m@ =~= spec_cli_message(self@));
                }
                m
            },
            CliError::UsageAdd => "Usage: phonebook add NAME PHONE".to_owned(),
            CliError::UsageDel => "Usage: phonebook del ID...".to_owned(),
            CliError::UsageEdit => "Usage: phonebook edit ID NAME PHONE".to_owned(),
            CliError::UsageShow => "Usage: phonebook show [SUBSTRING]".to_owned(),
            CliError::BadId(t) => {
                let mut m = "invalid id: ".to_owned();
                m.append(t.as_str());
                proof {
                    assert(m@ =~= spec_cli_message(self@));
                }
                m
            },
        }
    }
}

/// An argument is a well-formed 32-bit id.
pub open spec fn valid_id(a: Seq<char>) -> bool {
    crate::nums::valid_i32(a)
}

/// The views of the argument strings.
pub open spec fn args_view(args: Seq<String>) -> Seq<Seq<char>> {
    args.map_values(|a: String| a@)
}

/// The index of the first argument at or after `i` that is not a
/// well-formed id, or the length when all of them are.
pub open spec fn first_bad_id(args: Seq<Seq<char>>, i: int) -> int
    decreases args.len() - i,
{
    if i < 0 || i >= args.len() {
        args.len() as int
    } else if valid_id(args[i]) {
        first_bad_id(args, i + 1)
    } else {
        i
    }
}

/// What the dispatcher decides for a `del` command with at least one
/// id argument.
pub open spec fn spec_del(args: Seq<Seq<char>>) -> Result<CommandView, CliErrorView> {
    let b = first_bad_id(args, 2);
    if b < args.len() {
        Err(CliErrorView::BadId(args[b]))
    } else {
        Ok(
            CommandView::Del(
                Seq::new((args.len() - 2) as nat, |k: int| int_literal_value(args[2 + k]) as i32),
            ),
        )
    }
}

/// What the dispatcher decides for each argument vector: the verb is
/// `args[1]`, its positional arguments follow, and every mismatch is
/// a fatal error with its own message.
pub open spec fn spec_dispatch(args: Seq<Seq<char>>) -> Result<CommandView, CliErrorView> {
    if args.len() < 2 {
        Err(CliErrorView::NoCommand)
    } else if args[1] == "add"@ {
        if args.len() != 4 {
            Err(CliErrorView::UsageAdd)
        } else {
            Ok(CommandView::Add(args[2], args[3]))
        }
    } else if args[1] == "del"@ {
        if args.len() < 3 {
            Err(CliErrorView::UsageDel)
        } else {
            spec_del(args)
        }
    } else if args[1] == "edit"@ {
        if args.len() != 5 {
            Err(CliErrorView::UsageEdit)
        } else if valid_id(args[2]) {
            Ok(CommandView::Edit(int_literal_value(args[2]), args[3], args[4]))
        } else {
            Err(CliErrorView::BadId(args[2]))
        }
    } else if args[1] == "show"@ {
        if args.len() > 3 {
            Err(CliErrorView::UsageShow)
        } else if args.len() == 3 {
            Ok(CommandView::Show(Some(args[2])))
        } else {
            Ok(CommandView::Show(None))
        }
    } else if args[1] == "help"@ {
        Ok(CommandView::Help)
    } else if args[1] == "serve"@ {
        Ok(CommandView::Serve)
    } else {
        Err(CliErrorView::Invalid(args[1]))
    }
}

/// The view of a dispatch result.
pub open spec fn dispatch_view(r: Result<Command, CliError>) -> Result<CommandView, CliErrorView> {
    match r {
        Ok(c) => Ok(c@),
        Err(e) => Err(e@),
    }
}

/// Maps the process arguments (program name first) to a command, or
/// to the fatal error that ends the process.
#[verifier::loop_isolation(false)]
pub fn dispatch_args(args: &Vec<String>) -> (r: Result<Command, CliError>)
    ensures
        dispatch_view(r) == spec_dispatch(args_view(args@)),
{
    let ghost av = args_view(args@);
    if args.len() < 2 {
        return Err(CliError::NoCommand);
    }
    let verb = &args[1];
    if str_eq(verb.as_str(), "add") {
        if args.len() != 4 {
            Err(CliError::UsageAdd)
        } else {
            Ok(Command::Add(args[2].clone(), args[3].clone()))
        }
    } else if str_eq(verb.as_str(), "del") {
        if args.len() < 3 {
            Err(CliError::UsageDel)
        } else {
            let n = args.len();
            let mut ids: Vec<i32> = Vec::new();
            let mut i: usize = 2;
            while i < n
                invariant
                    av == args_view(args@),
                    n == args@.len(),
                    2 <= i <= n,
                    ids@.len() == i - 2,
                    first_bad_id(av, 2) == first_bad_id(av, i as int),
                    forall|k: int|
                        2 <= k < i ==> valid_id(#[trigger] av[k]) && ids@[k - 2]
                            == int_literal_value(av[k]) as i32,
                decreases n - i,
            {
                proof {
                    assert(av[i as int] == args@[i as int]@);
                }
                match crate::nums::parse_i32(args[i].as_str()) {
                    Some(v) => {
                        ids.push(v);
                        proof {
                            assert(valid_id(av[i as int]));
                            assert(ids@[i - 2] == int_literal_value(av[i as int]) as i32);
                        }
                    },
                    None => {
                        proof {
                            assert(first_bad_id(av, i as int) == i);
                            assert(spec_dispatch(av) == Err::<CommandView, CliErrorView>(CliErrorView::BadId(av[i as int])));
                        }
                        return Err(CliError::BadId(args[i].clone()));
                    },
                }
                i = i + 1;
            }
            proof {
                assert(first_bad_id(av, n as int) == n as int);
                let want = Seq::new(
                    (av.len() - 2) as nat,
                    |k: int| int_literal_value(av[2 + k]) as i32,
                );
                assert forall|k2: int| 0 <= k2 < want.len() implies ids@[k2] == want[k2] by {
                    assert(valid_id(av[k2 + 2]) && ids@[k2] == int_literal_value(av[k2 + 2]) as i32);
                }
                assert(ids@ =~= want);
            }
            Ok(Command::Del(ids))
        }
    } else if str_eq(verb.as_str(), "edit") {
        if args.len() != 5 {
            Err(CliError::UsageEdit)
        } else {
            proof {
                assert(av[2] == args@[2]@);
            }
            match crate::nums::parse_i32(args[2].as_str()) {
                Some(id) => Ok(Command::Edit(id, args[3].clone(), args[4].clone())),
                None => Err(CliError::BadId(args[2].clone())),
            }
        }
    } else if str_eq(verb.as_str(), "show") {
        if args.len() > 3 {
            Err(CliError::UsageShow)
        } else if args.len() == 3 {
            Ok(Command::Show(Some(args[2].clone())))
        } else {
            Ok(Command::Show(None))
        }
    } else if str_eq(verb.as_str(), "help") {
        Ok(Command::Help)
    } else if str_eq(verb.as_str(), "serve") {
        Ok(Command::Serve)
    } else {
        Err(CliError::Invalid(verb.clone()))
    }
}

/// The usage text the `help` verb prints.
pub fn help_text() -> (s: &'static str)
    ensures
        s@
            == "Usage: phonebook COMMAND [ARG]...\nCommands:\n\tadd NAME PHONE - create new record;\n\tdel ID1 ID2... - delete record;\n\tedit ID        - edit record;\n\tshow           - display all records;\n\tshow STRING    - display records which contain a given substring in the name;\n\thelp           - display this help."@,
{
    "Usage: phonebook COMMAND [ARG]...\nCommands:\n\tadd NAME PHONE - create new record;\n\tdel ID1 ID2... - delete record;\n\tedit ID        - edit record;\n\tshow           - display all records;\n\tshow STRING    - display records which contain a given substring in the name;\n\thelp           - display this help."
}

/// A string padded on the left with spaces up to width `w`.
pub open spec fn pad_left(s: Seq<char>, w: int) -> Seq<char> {
    if s.len() >= w {
        s
    } else {
        spaces(w - s.len()) + s
    }
}

/// A string padded on the right with spaces up to width `w`.
pub open spec fn pad_right(s: Seq<char>, w: int) -> Seq<char> {
    if s.len() >= w {
        s
    } else {
        s + spaces(w - s.len())
    }
}

/// One line of `show`'s tabular output: the id right-aligned to three
/// columns, the name left-aligned to the widest name, the phone, with
/// three spaces between the columns.
pub open spec fn render_row(r: RecordView, width: int) -> Seq<char> {
    pad_left(int_digits(r.id->0), 3) + "   "@ + pad_right(r.name, width) + "   "@ + r.phone
}

/// The widest name among the rows, counted in characters.
pub open spec fn max_name_len(rs: Seq<RecordView>) -> int
    decreases rs.len(),
{
    if rs.len() == 0 {
        0
    } else {
        let m = max_name_len(rs.drop_last());
        if rs.last().name.len() > m {
            rs.last().name.len() as int
        } else {
            m
        }
    }
}

/// Renders the rows as the aligned table the `show` verb prints, one
/// line per record, in order.
pub fn format(rs: &Vec<Record>) -> (lines: Vec<String>)
    requires
        forall|k: int| 0 <= k < rs@.len() ==> (#[trigger] views_of(rs@)[k]).id is Some,
    ensures
        lines@.len() == rs@.len(),
        forall|k: int|
            0 <= k < lines@.len() ==> (#[trigger] lines@[k])@ == render_row(
                views_of(rs@)[k],
                max_name_len(views_of(rs@)),
            ),
{
    let ghost views = views_of(rs@);
    let n = rs.len();
    let mut widest: usize = 0;
    let mut i: usize = 0;
    while i < n
        invariant
            n == rs@.len(),
            i <= n,
            views == views_of(rs@),
            widest == max_name_len(views.subrange(0, i as int)),
        decreases n - i,
    {
        let len = rs[i].name.unicode_len();
        if len > widest {
            widest = len;
        }
        proof {
            let ext = views.subrange(0, i + 1);
            assert(ext.drop_last() =~= views.subrange(0, i as int));
            assert(ext.last() == views[i as int]);
            assert(views[i as int] == rs@[i as int]@);
        }
        i = i + 1;
    }
    proof {
        assert(views.subrange(0, n as int) =~= views);
    }
    let mut lines: Vec<String> = Vec::new();
    let mut i: usize = 0;
    while i < n
        invariant
            n == rs@.len(),
            i <= n,
            views == views_of(rs@),
            widest == max_name_len(views),
            forall|k: int| 0 <= k < rs@.len() ==> (#[trigger] views[k]).id is Some,
            lines@.len() == i,
            forall|k: int|
                0 <= k < i ==> (#[trigger] lines@[k])@ == render_row(views[k], widest as int),
        decreases n - i,
    {
        let r = &rs[i];
        proof {
            assert(views[i as int] == rs@[i as int]@);
        }
        let id = match r.id {
            Some(v) => v,
            None => {
                proof {
                    assert(false);
                }
                0
            },
        };
        let digits = i32_to_string(id);
        let mut line = String::new();
        let dlen = digits.unicode_len();
        if dlen < 3 {
            push_spaces(&mut line, 3 - dlen);
        }
        line.append(digits.as_str());
        line.append("   ");
        line.append(r.name.as_str());
        let nlen = r.name.unicode_len();
        if nlen < widest {
            push_spaces(&mut line, widest - nlen);
        }
        line.append("   ");
        line.append(r.phone.as_str());
        proof {
            assert(line@ =~= render_row(views[i as int], widest as int));
        }
        lines.push(line);
        i = i + 1;
    }
    lines
}

} // verus!
