//! The command grammar: a build-once, read-many table of command
//! descriptions, each with a canonical name, aliases, an argument shape,
//! and the handler it dispatches to.
//!
//! Well-formedness (`grammar_wf`) demands that no two commands claim the
//! same name or alias; `cli` builds the default table and proves it
//! well-formed, and `grammar_is_wf` lets a host validate any other table
//! at startup.

use vstd::prelude::*;

use crate::matcher::bytes_eq;
use crate::tokenizer::views_of;

verus! {

/// What a command does when dispatched: echo its argument list and keep
/// the shell running, or terminate the shell.
#[derive(Clone, Copy, Debug)]
pub enum HandlerKind {
    EchoArgs,
    Quit,
}

/// One subcommand: its canonical name, its aliases, whether it captures a
/// trailing variadic list of string arguments, and its handler.
pub struct CommandSpec {
    pub name: Vec<u8>,
    pub aliases: Vec<Vec<u8>>,
    pub takes_ext: bool,
    pub handler: HandlerKind,
}

/// The mathematical value of a `CommandSpec`.
#[verifier::ext_equal]
pub struct CommandSpecView {
    pub name: Seq<u8>,
    pub aliases: Seq<Seq<u8>>,
    pub takes_ext: bool,
    pub handler: HandlerKind,
}

impl View for CommandSpec {
    type V = CommandSpecView;

    open spec fn view(&self) -> CommandSpecView {
        CommandSpecView {
            name: self.name@,
            aliases: views_of(self.aliases@),
            takes_ext: self.takes_ext,
            handler: self.handler,
        }
    }
}

/// The whole grammar: the commands the shell accepts.
pub struct Grammar {
    pub commands: Vec<CommandSpec>,
}

impl View for Grammar {
    type V = Seq<CommandSpecView>;

    open spec fn view(&self) -> Seq<CommandSpecView> {
        Seq::new(self.commands@.len(), |i: int| self.commands@[i]@)
    }
}

/// Whether command `c` answers to the word `tok`, as its canonical name
/// or as one of its aliases.
pub open spec fn claims(c: CommandSpecView, tok: Seq<u8>) -> bool {
    c.name == tok || c.aliases.contains(tok)
}

/// A well-formed grammar: no word is claimed by two different commands.
pub open spec fn grammar_wf(g: Seq<CommandSpecView>) -> bool {
    forall|i: int, j: int, t: Seq<u8>|
        0 <= i < g.len() && 0 <= j < g.len() && #[trigger] claims(g[i], t) && #[trigger] claims(
            g[j],
            t,
        ) ==> i == j
}

/// The bytes of `"select"`.
pub open spec fn name_select() -> Seq<u8> {
    seq![115u8, 101, 108, 101, 99, 116]
}

/// The bytes of `"insert"`.
pub open spec fn name_insert() -> Seq<u8> {
    seq![105u8, 110, 115, 101, 114, 116]
}

/// The bytes of `"quit"`.
pub open spec fn name_quit() -> Seq<u8> {
    seq![113u8, 117, 105, 116]
}

/// The bytes of `"q"`.
pub open spec fn name_q() -> Seq<u8> {
    seq![113u8]
}

/// The bytes of `"exit"`.
pub open spec fn name_exit() -> Seq<u8> {
    seq![101u8, 120, 105, 116]
}

/// The default grammar: `select` and `insert`, each taking a trailing
/// variadic argument list and echoing it, and `quit` (aliases `q` and
/// `exit`), taking no arguments and terminating the shell.
pub open spec fn default_grammar() -> Seq<CommandSpecView> {
    seq![
        CommandSpecView {
            name: name_select(),
            aliases: Seq::empty(),
            takes_ext: true,
            handler: HandlerKind::EchoArgs,
        },
        CommandSpecView {
            name: name_insert(),
            aliases: Seq::empty(),
            takes_ext: true,
            handler: HandlerKind::EchoArgs,
        },
        CommandSpecView {
            name: name_quit(),
            aliases: seq![name_q(), name_exit()],
            takes_ext: false,
            handler: HandlerKind::Quit,
        },
    ]
}

/// The five words of the default grammar are pairwise distinct, so the
/// default grammar is well-formed.
pub proof fn lemma_default_grammar_wf()
    ensures
        grammar_wf(default_grammar()),
{
    let g = default_grammar();
    assert(name_select().len() == 6);
    assert(name_insert().len() == 6);
    assert(name_quit().len() == 4);
    assert(name_q().len() == 1);
    assert(name_exit().len() == 4);
    assert(name_select()[0] != name_insert()[0]);
    assert(name_quit()[0] != name_exit()[0]);
    assert forall|i: int, j: int, t: Seq<u8>|
        0 <= i < g.len() && 0 <= j < g.len() && #[trigger] claims(g[i], t) && #[trigger] claims(
            g[j],
            t,
        ) implies i == j by {
        assert(g[0].aliases.len() == 0);
        assert(g[1].aliases.len() == 0);
        assert(g[2].aliases.len() == 2);
        assert(g[2].aliases[0] == name_q());
        assert(g[2].aliases[1] == name_exit());
        if claims(g[0], t) {
            assert(t == name_select());
        }
        if claims(g[1], t) {
            assert(t == name_insert());
        }
        if claims(g[2], t) {
            assert(t == name_quit() || t == name_q() || t == name_exit());
        }
    }
}

fn vec_select() -> (v: Vec<u8>)
    ensures
        v@ == name_select(),
{
    let mut v: Vec<u8> = Vec::new();
    v.push(115);
    v.push(101);
    v.push(108);
    v.push(101);
    v.push(99);
    v.push(116);
    proof {
        assert(v@ =~= name_select());
    }
    v
}

fn vec_insert() -> (v: Vec<u8>)
    ensures
        v@ == name_insert(),
{
    let mut v: Vec<u8> = Vec::new();
    v.push(105);
    v.push(110);
    v.push(115);
    v.push(101);
    v.push(114);
    v.push(116);
    proof {
        assert(v@ =~= name_insert());
    }
    v
}

fn vec_quit() -> (v: Vec<u8>)
    ensures
        v@ == name_quit(),
{
    let mut v: Vec<u8> = Vec::new();
    v.push(113);
    v.push(117);
    v.push(105);
    v.push(116);
    proof {
        assert(v@ =~= name_quit());
    }
    v
}

fn vec_q() -> (v: Vec<u8>)
    ensures
        v@ == name_q(),
{
    let mut v: Vec<u8> = Vec::new();
    v.push(113);
    proof {
        assert(v@ =~= name_q());
    }
    v
}

fn vec_exit() -> (v: Vec<u8>)
    ensures
        v@ == name_exit(),
{
    let mut v: Vec<u8> = Vec::new();
    v.push(101);
    v.push(120);
    v.push(105);
    v.push(116);
    proof {
        assert(v@ =~= name_exit());
    }
    v
}

/// Builds the default command grammar, proved well-formed.
pub fn cli() -> (g: Grammar)
    ensures
        g@ == default_grammar(),
        grammar_wf(g@),
{
    let mut commands: Vec<CommandSpec> = Vec::new();
    commands.push(
        CommandSpec {
            name: vec_select(),
            aliases: Vec::new(),
            takes_ext: true,
            handler: HandlerKind::EchoArgs,
        },
    );
    commands.push(
        CommandSpec {
            name: vec_insert(),
            aliases: Vec::new(),
            takes_ext: true,
            handler: HandlerKind::EchoArgs,
        },
    );
    let mut quit_aliases: Vec<Vec<u8>> = Vec::new();
    quit_aliases.push(vec_q());
    quit_aliases.push(vec_exit());
    commands.push(
        CommandSpec {
            name: vec_quit(),
            aliases: quit_aliases,
            takes_ext: false,
            handler: HandlerKind::Quit,
        },
    );
    let g = Grammar { commands };
    proof {
        assert(g@[0].aliases =~= Seq::<Seq<u8>>::empty());
        assert(g@[1].aliases =~= Seq::<Seq<u8>>::empty());
        assert(g@[2].aliases =~= seq![name_q(), name_exit()]);
        assert(g@[0] =~= default_grammar()[0]);
        assert(g@[1] =~= default_grammar()[1]);
        assert(g@[2] =~= default_grammar()[2]);
        assert(g@ =~= default_grammar());
        lemma_default_grammar_wf();
    }
    g
}

/// Whether any command of `g` claims the word `tok`.
pub open spec fn some_claims(g: Seq<CommandSpecView>, tok: Seq<u8>) -> bool {
    exists|i: int| 0 <= i < g.len() && claims(#[trigger] g[i], tok)
}

/// Whether command `c` answers to the word `tok`.
pub fn command_claims(c: &CommandSpec, tok: &Vec<u8>) -> (r: bool)
    ensures
        r == claims(c@, tok@),
{
    if bytes_eq(&c.name, tok) {
        return true;
    }
    let mut i: usize = 0;
    while i < c.aliases.len()
        invariant
            0 <= i <= c.aliases@.len(),
            forall|k: int| 0 <= k < i ==> c@.aliases[k] != tok@,
        decreases c.aliases@.len() - i,
    {
        if bytes_eq(&c.aliases[i], tok) {
            proof {
                assert(c@.aliases[i as int] == tok@);
            }
            return true;
        }
        i = i + 1;
    }
    proof {
        assert(!c@.aliases.contains(tok@));
    }
    false
}

/// Every word (name or alias) of command `c` is free of claims by command
/// `d`.
spec fn words_free(c: CommandSpecView, d: CommandSpecView) -> bool {
    forall|t: Seq<u8>| claims(c, t) ==> !#[trigger] claims(d, t)
}

/// Whether no word of command `ci` is also claimed by command `cj`.
fn commands_disjoint(ci: &CommandSpec, cj: &CommandSpec) -> (r: bool)
    ensures
        r == words_free(ci@, cj@),
{
    if command_claims(cj, &ci.name) {
        proof {
            assert(claims(ci@, ci@.name));
        }
        return false;
    }
    let mut k: usize = 0;
    while k < ci.aliases.len()
        invariant
            0 <= k <= ci.aliases@.len(),
            !claims(cj@, ci@.name),
            forall|k0: int| 0 <= k0 < k ==> !claims(cj@, #[trigger] ci@.aliases[k0]),
        decreases ci.aliases@.len() - k,
    {
        if command_claims(cj, &ci.aliases[k]) {
            proof {
                assert(ci@.aliases.contains(ci@.aliases[k as int]));
                assert(claims(ci@, ci@.aliases[k as int]));
            }
            return false;
        }
        k = k + 1;
    }
    proof {
        assert forall|t: Seq<u8>| claims(ci@, t) implies !claims(cj@, t) by {
            if ci@.aliases.contains(t) {
                let k0 = choose|k0: int| 0 <= k0 < ci@.aliases.len() && ci@.aliases[k0] == t;
                assert(!claims(cj@, ci@.aliases[k0]));
            }
        }
    }
    true
}

/// Validates a grammar at startup: true exactly when no name or alias is
/// claimed by two different commands. A collision is a configuration
/// error, to be caught here before the shell loop ever runs.
pub fn grammar_is_wf(g: &Grammar) -> (r: bool)
    ensures
        r == grammar_wf(g@),
{
    let n = g.commands.len();
    let mut i: usize = 0;
    while i < n
        invariant
            0 <= i <= n,
            n == g.commands@.len(),
            g@.len() == n,
            forall|i0: int, j0: int|
                0 <= i0 < i && 0 <= j0 < g@.len() && i0 != j0 ==> words_free(
                    #[trigger] g@[i0],
                    #[trigger] g@[j0],
                ),
        decreases n - i,
    {
        let mut j: usize = 0;
        while j < n
            invariant
                0 <= i < n,
                0 <= j <= n,
                n == g.commands@.len(),
                g@.len() == n,
                forall|i0: int, j0: int|
                    0 <= i0 < i && 0 <= j0 < g@.len() && i0 != j0 ==> words_free(
                        #[trigger] g@[i0],
                        #[trigger] g@[j0],
                    ),
                forall|j0: int|
                    0 <= j0 < j && j0 != i ==> words_free(g@[i as int], #[trigger] g@[j0]),
            decreases n - j,
        {
            if j != i {
                if !commands_disjoint(&g.commands[i], &g.commands[j]) {
                    proof {
                        let t = choose|t: Seq<u8>|
                            claims(g@[i as int], t) && #[trigger] claims(g@[j as int], t);
                        assert(claims(g@[i as int], t));
                        assert(claims(g@[j as int], t));
                        assert(!grammar_wf(g@));
                    }
                    return false;
                }
            }
            j = j + 1;
        }
        i = i + 1;
    }
    proof {
        assert forall|i0: int, j0: int, t: Seq<u8>|
            0 <= i0 < g@.len() && 0 <= j0 < g@.len() && #[trigger] claims(g@[i0], t)
                && #[trigger] claims(g@[j0], t) implies i0 == j0 by {
            if i0 != j0 {
                assert(words_free(g@[i0], g@[j0]));
            }
        }
    }
    true
}

} // verus!
