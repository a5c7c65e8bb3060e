//! Interpretation of the command line.

use vstd::prelude::*;
use vstd::string::*;

use crate::watchlist::{law_remove_first_multiset, remove_first};

verus! {

/// Printed when the tool is run without arguments.
pub const USAGE: &'static str = "Usage:\n\tcharts-rs <symbol>\n\
                 \tcharts-rs add <symbol>\n\
                 \tcharts-rs rm <symbol>\n\
                 \tcharts-rs list\n\
                 \tcharts-rs list -s <list name>\n\
                 \tcharts-rs list -n <list name>\n\
                 \tcharts-rs list -d <list name>\n\n\
                 Enter charts-rs --help for more information.";

/// Printed for `--help`.
pub const HELP: &'static str =
    "Help:\n\tcharts-rs <symbol>\t\tEnter a list of symbols to display more than one.\n\
                 \tcharts-rs add <symbol>\t\tAdds a symbol or list of symbols to the watchlist.\n\
                 \tcharts-rs rm <symbol>\t\tRemoves a symbol or list of symbols from the watchlist.\n\
                 \tcharts-rs list\t\t\tLists the data for all symbols currently in the list.\n\
                 \tcharts-rs list -s <list name>\tSwitches the current list to <list name>\n\
                 \tcharts-rs list -n <list name>\tCreates a new empty list named <list name> and sets it to the current list.\n\
                 \tcharts-rs list -d <list name>\tDeletes the list named <list name>\n";

/// Printed when a `list` command is malformed.
pub const INVALID_SYNTAX: &'static str = "Error: Invalid syntax.";

/// What the command line asks for. The first four carry on to the stock and
/// list operations; the others are done by the caller right away.
#[derive(Debug)]
pub enum Branch {
    /// Show the given symbols.
    Symbol(Vec<String>),
    /// Add the given symbols to the current list.
    Add(Vec<String>),
    /// Remove the given symbols from the current list.
    Remove(Vec<String>),
    /// Show the current list.
    List,
    /// Print `USAGE`.
    ShowUsage,
    /// Print `HELP`.
    ShowHelp,
    /// Print `INVALID_SYNTAX`.
    InvalidSyntax,
    /// Make the named list the current one.
    SetCurrentList(String),
    /// Create the named list, empty, and make it the current one.
    NewList(String),
    /// Delete the named list; the default list becomes the current one.
    DeleteList(String),
    /// Tell the list service to stop.
    CloseServer,
}

/// `Branch` with its strings taken by their characters.
pub enum BranchModel {
    Symbol(Seq<Seq<char>>),
    Add(Seq<Seq<char>>),
    Remove(Seq<Seq<char>>),
    List,
    ShowUsage,
    ShowHelp,
    InvalidSyntax,
    SetCurrentList(Seq<char>),
    NewList(Seq<char>),
    DeleteList(Seq<char>),
    CloseServer,
}

impl View for Branch {
    type V = BranchModel;

    open spec fn view(&self) -> BranchModel {
        match self {
            Branch::Symbol(v) => BranchModel::Symbol(v.deep_view()),
            Branch::Add(v) => BranchModel::Add(v.deep_view()),
            Branch::Remove(v) => BranchModel::Remove(v.deep_view()),
            Branch::List => BranchModel::List,
            Branch::ShowUsage => BranchModel::ShowUsage,
            Branch::ShowHelp => BranchModel::ShowHelp,
            Branch::InvalidSyntax => BranchModel::InvalidSyntax,
            Branch::SetCurrentList(s) => BranchModel::SetCurrentList(s@),
            Branch::NewList(s) => BranchModel::NewList(s@),
            Branch::DeleteList(s) => BranchModel::DeleteList(s@),
            Branch::CloseServer => BranchModel::CloseServer,
        }
    }
}

/// `a` after `swap_remove(0)`: the last argument takes the first one's place.
pub open spec fn swap_remove_front<A>(a: Seq<A>) -> Seq<A> {
    a.update(0, a.last()).drop_last()
}

/// The arguments as they stand after interpretation: `add` and `rm` take
/// their keyword out with `swap_remove(0)`; the rest leave them alone.
pub open spec fn spec_args_after(a: Seq<Seq<char>>) -> Seq<Seq<char>> {
    if a.len() > 0 && (a[0] == "add"@ || a[0] == "rm"@) {
        swap_remove_front(a)
    } else {
        a
    }
}

/// What a `list` command with arguments `a` (with `a[0] == "list"`) asks
/// for: `-s NAME` switches to a list and `-n NAME` creates one and switches
/// to it, each needing exactly its name; `-d NAME` deletes a list, and `-d`
/// alone switches back to the default list.
pub open spec fn spec_list_command(a: Seq<Seq<char>>) -> BranchModel {
    if a.len() == 1 {
        BranchModel::List
    } else if a.len() <= 3 {
        if a[1] == "-s"@ || a[1] == "-n"@ {
            if a.len() != 3 {
                BranchModel::InvalidSyntax
            } else if a[1] == "-s"@ {
                BranchModel::SetCurrentList(a[2])
            } else {
                BranchModel::NewList(a[2])
            }
        } else if a[1] == "-d"@ {
            if a.len() == 3 {
                BranchModel::DeleteList(a[2])
            } else {
                BranchModel::SetCurrentList("list"@)
            }
        } else {
            BranchModel::List
        }
    } else {
        BranchModel::InvalidSyntax
    }
}

/// What the arguments `a` (program name excluded) ask for.
pub open spec fn spec_parse_args(a: Seq<Seq<char>>) -> BranchModel {
    if a.len() == 0 {
        BranchModel::ShowUsage
    } else if a[0] == "--help"@ {
        BranchModel::ShowHelp
    } else if a[0] == "add"@ {
        BranchModel::Add(swap_remove_front(a))
    } else if a[0] == "rm"@ {
        BranchModel::Remove(swap_remove_front(a))
    } else if a[0] == "list"@ {
        spec_list_command(a)
    } else if a[0] == "exit"@ {
        BranchModel::CloseServer
    } else {
        BranchModel::Symbol(a)
    }
}

/// Whether `s` reads `lit`.
fn reads(s: &String, lit: &str) -> (r: bool)
    ensures
        r == (s@ == lit@),
{
    *s == lit.to_owned()
}

/// Copies the arguments.
fn copy_args(args: &Vec<String>) -> (r: Vec<String>)
    ensures
        r.deep_view() == args.deep_view(),
{
    let mut out: Vec<String> = Vec::new();
    let mut i: usize = 0;
    while i < args.len()
        invariant
            i <= args.len(),
            out.deep_view() == args.deep_view().take(i as int),
        decreases args.len() - i,
    {
        let ghost before = out.deep_view();
        let item = args[i].clone();
        assert(item@ == args.deep_view()[i as int]);
        out.push(item);
        assert(out.deep_view() =~= before.push(item@));
        assert(out.deep_view() =~= args.deep_view().take(i + 1));
        i = i + 1;
    }
    assert(args.deep_view().take(args.len() as int) =~= args.deep_view());
    out
}

/// Interprets the command-line arguments (program name excluded). For `add`
/// and `rm` the keyword is taken out of `args` with `swap_remove(0)`, so
/// the last argument moves to the front, and the branch carries the rest.
pub fn parse_args(args: &mut Vec<String>) -> (r: Branch)
    ensures
        r@ == spec_parse_args(old(args).deep_view()),
        final(args).deep_view() == spec_args_after(old(args).deep_view()),
{
    let ghost a = args.deep_view();
    proof {
        reveal_strlit("--help");
        reveal_strlit("add");
        reveal_strlit("rm");
        reveal_strlit("list");
        reveal_strlit("exit");
    }
    if args.len() == 0 {
        return Branch::ShowUsage;
    }
    assert(a[0] == args@[0]@);
    assert(a.len() > 1 ==> a[1] == args@[1]@);
    if reads(&args[0], "--help") {
        Branch::ShowHelp
    } else if reads(&args[0], "add") {
        args.swap_remove(0);
        assert(args.deep_view() =~= swap_remove_front(a));
        Branch::Add(copy_args(args))
    } else if reads(&args[0], "rm") {
        args.swap_remove(0);
        assert(args.deep_view() =~= swap_remove_front(a));
        Branch::Remove(copy_args(args))
    } else if reads(&args[0], "list") {
        let n = args.len();
        if n == 1 {
            Branch::List
        } else if n <= 3 {
            let s = reads(&args[1], "-s");
            let new = reads(&args[1], "-n");
            if s || new {
                if n != 3 {
                    Branch::InvalidSyntax
                } else if s {
                    Branch::SetCurrentList(args[2].clone())
                } else {
                    Branch::NewList(args[2].clone())
                }
            } else if reads(&args[1], "-d") {
                if n == 3 {
                    Branch::DeleteList(args[2].clone())
                } else {
                    Branch::SetCurrentList("list".to_owned())
                }
            } else {
                Branch::List
            }
        } else {
            Branch::InvalidSyntax
        }
    } else if reads(&args[0], "exit") {
        Branch::CloseServer
    } else {
        Branch::Symbol(copy_args(args))
    }
}

/// `add` and `rm` carry exactly the symbols that follow the keyword, though
/// not always in the order given: as multisets the two agree.
pub proof fn law_add_carries_symbols(keyword: Seq<char>, symbols: Seq<Seq<char>>)
    requires
        keyword == "add"@ || keyword == "rm"@,
    ensures
        swap_remove_front(seq![keyword] + symbols).to_multiset() == symbols.to_multiset(),
        swap_remove_front(seq![keyword] + symbols).len() == symbols.len(),
{
    broadcast use vstd::seq_lib::group_to_multiset_ensures;
    broadcast use vstd::multiset::group_multiset_axioms;

    let a = seq![keyword] + symbols;
    assert(a =~= symbols.insert(0, keyword));
    vstd::seq_lib::to_multiset_insert(symbols, 0, keyword);
    crate::text::lemma_first_position_at(a, keyword, 0);
    law_remove_first_multiset(a, keyword);
    assert(remove_first(a, keyword) == swap_remove_front(a));
    assert(a.to_multiset().remove(keyword) =~= symbols.to_multiset());
}

/// None of the words that start a command.
pub open spec fn is_plain_symbol(w: Seq<char>) -> bool {
    w != "--help"@ && w != "add"@ && w != "rm"@ && w != "list"@ && w != "exit"@
}

/// Arguments that do not start with a command word are symbols to show:
/// the branch carries exactly the arguments, in order, however many there
/// are, and the arguments are left as they were.
pub proof fn law_symbols_are_shown(a: Seq<Seq<char>>)
    requires
        a.len() > 0,
        is_plain_symbol(a[0]),
    ensures
        spec_parse_args(a) == BranchModel::Symbol(a),
        spec_args_after(a) == a,
{
}

/// `add` and `rm` followed by symbols `s` carry all of `s`: the last symbol
/// first, then the others in order (the keyword's place is taken by the last
/// symbol), so the same symbols as many times each.
pub proof fn law_add_rm_carry_symbols(k: Seq<char>, s: Seq<Seq<char>>)
    requires
        k == "add"@ || k == "rm"@,
    ensures
        ({
            let t = if s.len() == 0 { s } else { seq![s.last()] + s.drop_last() };
            &&& spec_parse_args(seq![k] + s) == (if k == "add"@ {
                BranchModel::Add(t)
            } else {
                BranchModel::Remove(t)
            })
            &&& t.len() == s.len()
            &&& t.to_multiset() == s.to_multiset()
        }),
{
    reveal_strlit("--help");
    reveal_strlit("add");
    reveal_strlit("rm");
    let a = seq![k] + s;
    assert(a[0] == k);
    assert(k != "--help"@) by {
        if k == "add"@ {
            assert(k.len() != "--help"@.len());
        } else {
            assert(k.len() != "--help"@.len());
        }
    }
    if k == "rm"@ {
        assert(k != "add"@) by {
            assert(k.len() != "add"@.len());
        }
    }
    let t = if s.len() == 0 { s } else { seq![s.last()] + s.drop_last() };
    assert(swap_remove_front(a) =~= t);
    law_add_carries_symbols(k, s);
}

} // verus!
