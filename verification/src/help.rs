//! The help text of a command: what it does, how it is called, its
//! subcommands and its arguments.
use vstd::prelude::*;
use crate::argparse::{Arg, ArgKind, Command};
use crate::text::{copy_str, join, join_strings, pad, append_padded, push_char};
use crate::render::{views, push_line, labelled};

verus! {

/// How an argument is written in the help text.
pub open spec fn arg_label(a: Arg) -> Seq<char> {
    let names = match (a.short, a.long) {
        (Some(s), Some(l)) => seq!['-', s] + ", --"@ + l@,
        (Some(s), None) => seq!['-', s],
        (None, Some(l)) => "    --"@ + l@,
        (None, None) => Seq::empty(),
    };
    match a.kind {
        ArgKind::Flag => names,
        ArgKind::Value => names + " <"@ + a.value_name@ + ">"@,
        ArgKind::Positional => "<"@ + a.value_name@ + ">"@,
        ArgKind::Trailing => "["@ + a.value_name@ + "]..."@,
    }
}

/// The lines of the help text of `cmd`, reached by the command path `path`.
pub open spec fn help_lines(cmd: Command, path: Seq<char>) -> Seq<Seq<char>> {
    let subs = cmd.subcommands@;
    let args = cmd.args@;
    let head = if cmd.about@.len() > 0 {
        seq![cmd.about@, Seq::empty()]
    } else {
        Seq::empty()
    };
    let usage = seq![
        "Usage: "@ + path + (if args.len() > 0 { " [OPTIONS]"@ } else { Seq::empty() }) + (if subs.len() > 0 {
            " <COMMAND>"@
        } else {
            Seq::empty()
        }),
    ];
    let commands = if subs.len() > 0 {
        seq![Seq::empty(), "Commands:"@] + subs.map_values(|s: Command| "  "@ + pad(s.name@, 12) + " "@ + s.about@)
    } else {
        Seq::empty()
    };
    let options = seq![Seq::empty(), "Options:"@] + args.map_values(
        |a: Arg| "  "@ + pad(arg_label(a), 26) + " "@ + a.help@,
    ) + seq!["  "@ + pad("-h, --help"@, 26) + " "@ + "Print help"@];
    head + usage + commands + options
}

/// The help text of `cmd`: its lines, one after the other.
pub open spec fn help_text(cmd: Command, path: Seq<char>) -> Seq<char> {
    join(help_lines(cmd, path), "\n"@)
}

/// Writes how an argument is named in the help text.
fn arg_label_exec(a: &Arg) -> (r: String)
    ensures
        r@ == arg_label(*a),
{
    let mut names = String::new();
    match (&a.short, &a.long) {
        (Some(s), Some(l)) => {
            push_char(&mut names, '-');
            push_char(&mut names, *s);
            names.append(", --");
            names.append(l.as_str());
        },
        (Some(s), None) => {
            push_char(&mut names, '-');
            push_char(&mut names, *s);
        },
        (None, Some(l)) => {
            names.append("    --");
            names.append(l.as_str());
        },
        (None, None) => {},
    }
    proof {
        if a.short is Some && a.long is Some {
            assert(names@ =~= seq!['-', a.short->0] + ", --"@ + a.long->0@);
        } else if a.short is Some {
            assert(names@ =~= seq!['-', a.short->0]);
        } else if a.long is None {
            assert(names@ =~= Seq::<char>::empty());
        }
    }
    match a.kind {
        ArgKind::Flag => names,
        ArgKind::Value => {
            names.append(" <");
            names.append(a.value_name.as_str());
            names.append(">");
            names
        },
        ArgKind::Positional => {
            let mut t = copy_str("<");
            t.append(a.value_name.as_str());
            t.append(">");
            t
        },
        ArgKind::Trailing => {
            let mut t = copy_str("[");
            t.append(a.value_name.as_str());
            t.append("]...");
            t
        },
    }
}

/// `"  "`, `label` padded to `width`, a space and `text`.
fn help_row(label: &str, width: usize, text: &str) -> (r: String)
    ensures
        r@ == "  "@ + pad(label@, width as nat) + " "@ + text@,
{
    let mut r = copy_str("  ");
    append_padded(&mut r, label, width);
    r.append(" ");
    r.append(text);
    r
}

/// Writes the help text of `cmd`, reached by the command path `path`.
pub fn help_text_exec(cmd: &Command, path: &str) -> (r: String)
    ensures
        r@ == help_text(*cmd, path@),
{
    let ghost expect = help_lines(*cmd, path@);
    let mut lines: Vec<String> = Vec::new();
    if cmd.about.as_str().unicode_len() > 0 {
        push_line(&mut lines, copy_str(cmd.about.as_str()));
        push_line(&mut lines, String::new());
    }
    let ghost head = views(lines@);
    let mut usage = labelled("Usage: ", path);
    if cmd.args.len() > 0 {
        usage.append(" [OPTIONS]");
    }
    if cmd.subcommands.len() > 0 {
        usage.append(" <COMMAND>");
    }
    push_line(&mut lines, usage);
    let ghost with_usage = views(lines@);
    if cmd.subcommands.len() > 0 {
        push_line(&mut lines, String::new());
        push_line(&mut lines, copy_str("Commands:"));
        let ghost start = views(lines@);
        let mut i: usize = 0;
        while i < cmd.subcommands.len()
            invariant
                i <= cmd.subcommands@.len(),
                views(lines@) == start + cmd.subcommands@.take(i as int).map_values(
                    |s: Command| "  "@ + pad(s.name@, 12) + " "@ + s.about@,
                ),
            decreases cmd.subcommands.len() - i,
        {
            let s = &cmd.subcommands[i];
            push_line(&mut lines, help_row(s.name.as_str(), 12, s.about.as_str()));
            proof {
                assert(cmd.subcommands@.take(i + 1).map_values(|s: Command| "  "@ + pad(s.name@, 12) + " "@ + s.about@)
                    =~= cmd.subcommands@.take(i as int).map_values(
                    |s: Command| "  "@ + pad(s.name@, 12) + " "@ + s.about@,
                ).push("  "@ + pad(cmd.subcommands@[i as int].name@, 12) + " "@ + cmd.subcommands@[i as int].about@));
            }
            i = i + 1;
        }
        proof {
            assert(cmd.subcommands@.take(cmd.subcommands@.len() as int) =~= cmd.subcommands@);
        }
    }
    let ghost with_commands = views(lines@);
    push_line(&mut lines, String::new());
    push_line(&mut lines, copy_str("Options:"));
    let ghost opt_start = views(lines@);
    let mut j: usize = 0;
    while j < cmd.args.len()
        invariant
            j <= cmd.args@.len(),
            views(lines@) == opt_start + cmd.args@.take(j as int).map_values(
                |a: Arg| "  "@ + pad(arg_label(a), 26) + " "@ + a.help@,
            ),
        decreases cmd.args.len() - j,
    {
        let a = &cmd.args[j];
        let label = arg_label_exec(a);
        push_line(&mut lines, help_row(label.as_str(), 26, a.help.as_str()));
        proof {
            assert(cmd.args@.take(j + 1).map_values(|a: Arg| "  "@ + pad(arg_label(a), 26) + " "@ + a.help@)
                =~= cmd.args@.take(j as int).map_values(|a: Arg| "  "@ + pad(arg_label(a), 26) + " "@ + a.help@).push(
                "  "@ + pad(arg_label(cmd.args@[j as int]), 26) + " "@ + cmd.args@[j as int].help@,
            ));
        }
        j = j + 1;
    }
    push_line(&mut lines, help_row("-h, --help", 26, "Print help"));
    proof {
        assert(cmd.args@.take(cmd.args@.len() as int) =~= cmd.args@);
        let subs = cmd.subcommands@;
        let args = cmd.args@;
        let e_head = if cmd.about@.len() > 0 {
            seq![cmd.about@, Seq::<char>::empty()]
        } else {
            Seq::<Seq<char>>::empty()
        };
        assert(head =~= e_head);
        let e_usage = seq![
            "Usage: "@ + path@ + (if args.len() > 0 { " [OPTIONS]"@ } else { Seq::<char>::empty() }) + (if subs.len() > 0 {
                " <COMMAND>"@
            } else {
                Seq::<char>::empty()
            }),
        ];
        assert(with_usage =~= e_head + e_usage);
        let e_commands = if subs.len() > 0 {
            seq![Seq::<char>::empty(), "Commands:"@] + subs.map_values(|s: Command| "  "@ + pad(s.name@, 12) + " "@ + s.about@)
        } else {
            Seq::<Seq<char>>::empty()
        };
        assert(with_commands =~= e_head + e_usage + e_commands);
        let e_options = seq![Seq::<char>::empty(), "Options:"@] + args.map_values(
            |a: Arg| "  "@ + pad(arg_label(a), 26) + " "@ + a.help@,
        ) + seq!["  "@ + pad("-h, --help"@, 26) + " "@ + "Print help"@];
        assert(views(lines@) =~= e_head + e_usage + e_commands + e_options);
        assert(views(lines@) =~= expect);
        assert(lines@.map_values(|x: String| x@) =~= views(lines@));
    }
    join_strings(&lines, "\n")
}

} // verus!
