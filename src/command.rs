//! Check commands: how they are read from configuration, and how their exit
//! outcomes decide whether the project counts as valid.

use vstd::prelude::*;
use vstd::string::*;

use crate::model::views;

verus! {

/// The pieces of `s` between single spaces, in order; two adjacent spaces give
/// an empty piece, and a string without a space is one piece.
pub open spec fn split_spaces(s: Seq<char>) -> Seq<Seq<char>>
    decreases s.len(),
{
    if s.len() == 0 {
        seq![Seq::<char>::empty()]
    } else {
        let p = split_spaces(s.drop_last());
        if s.last() == ' ' {
            p.push(Seq::<char>::empty())
        } else {
            p.update(p.len() - 1, p.last().push(s.last()))
        }
    }
}

/// A configured command: everything before the first space names the
/// executable, and what follows it is split on single spaces into arguments.
pub open spec fn parse_command(s: Seq<char>) -> (Seq<char>, Seq<Seq<char>>) {
    let p = split_spaces(s);
    (p[0], p.drop_first())
}

/// Splits one configured command into its executable and its arguments.
pub fn split_command(cmd: &String) -> (r: (String, Vec<String>))
    ensures
        (r.0@, views(r.1@)) == parse_command(cmd@),
{
    let s = cmd.as_str();
    let n = s.unicode_len();
    let mut pieces: Vec<String> = Vec::new();
    let mut start: usize = 0;
    let mut i: usize = 0;
    proof {
        assert(s@.take(0) =~= Seq::<char>::empty());
        assert(views(pieces@).push(s@.subrange(0, 0)) =~= split_spaces(s@.take(0)));
    }
    while i < n
        invariant
            n == s@.len(),
            s@ == cmd@,
            start <= i <= n,
            views(pieces@).push(s@.subrange(start as int, i as int)) == split_spaces(
                s@.take(i as int),
            ),
        decreases n - i,
    {
        let c = s.get_char(i);
        let ghost prev = split_spaces(s@.take(i as int));
        proof {
            let t = s@.take(i + 1);
            assert(t.drop_last() =~= s@.take(i as int));
            assert(t.last() == c);
            assert(split_spaces(t) == if c == ' ' {
                prev.push(Seq::<char>::empty())
            } else {
                prev.update(prev.len() - 1, prev.last().push(c))
            });
        }
        if c == ' ' {
            let piece = String::from_str(s.substring_char(start, i));
            pieces.push(piece);
            start = i + 1;
            assert(views(pieces@) =~= prev);
            assert(s@.subrange(start as int, (i + 1) as int) =~= Seq::<char>::empty());
            assert(views(pieces@).push(s@.subrange(start as int, (i + 1) as int)) =~= split_spaces(
                s@.take(i + 1),
            ));
        } else {
            assert(s@.subrange(start as int, (i + 1) as int) =~= s@.subrange(
                start as int,
                i as int,
            ).push(c));
            assert(views(pieces@).push(s@.subrange(start as int, (i + 1) as int)) =~= split_spaces(
                s@.take(i + 1),
            ));
        }
        i = i + 1;
    }
    let last = String::from_str(s.substring_char(start, n));
    pieces.push(last);
    assert(s@.take(n as int) =~= s@);
    assert(views(pieces@) =~= split_spaces(cmd@));
    let exe = pieces.remove(0);
    assert(views(pieces@) =~= split_spaces(cmd@).drop_first());
    (exe, pieces)
}

/// The configured check commands, one string each, as given on the command line.
pub struct Opts {
    pub cargo_check_command: Vec<String>,
}

/// The validity oracle: an ordered list of executables with their arguments,
/// fixed once it is made.
pub struct CargoChecker {
    pub cmds: Vec<(String, Vec<String>)>,
}

impl CargoChecker {
    /// The commands as executable and argument list, in the order they run.
    pub open spec fn commands(&self) -> Seq<(Seq<char>, Seq<Seq<char>>)> {
        self.cmds@.map_values(|c: (String, Vec<String>)| (c.0@, views(c.1@)))
    }
}

impl Opts {
    /// Builds the oracle: each configured command is split into its executable
    /// and its arguments, in the configured order.
    pub fn create_cargo_checker(&self) -> (r: CargoChecker)
        ensures
            r.commands() == views(self.cargo_check_command@).map_values(
                |c: Seq<char>| parse_command(c),
            ),
    {
        let mut cmds: Vec<(String, Vec<String>)> = Vec::new();
        let n = self.cargo_check_command.len();
        let mut i: usize = 0;
        while i < n
            invariant
                n == self.cargo_check_command@.len(),
                i <= n,
                cmds@.len() == i,
                forall|j: int|
                    0 <= j < i ==> (#[trigger] cmds@[j].0@, views(cmds@[j].1@)) == parse_command(
                        self.cargo_check_command@[j]@,
                    ),
            decreases n - i,
        {
            let c = split_command(&self.cargo_check_command[i]);
            cmds.push(c);
            i = i + 1;
        }
        let r = CargoChecker { cmds };
        assert(r.commands() =~= views(self.cargo_check_command@).map_values(
            |c: Seq<char>| parse_command(c),
        ));
        r
    }
}

/// What the oracle does next, given the exit outcomes seen so far.
#[derive(Debug, Clone, Copy, PartialEq, Eq, Structural)]
pub enum OracleStep {
    /// Run the command at this index and report whether it exited successfully.
    Run(usize),
    /// The oracle's answer: `true` means the project counts as valid.
    Done(bool),
}

/// The oracle's answer on a complete list of exit outcomes: valid exactly when
/// every command exited unsuccessfully. This polarity is intended: together
/// with `Engine::record`, a removal after which every check command fails is
/// kept, and one after which any command succeeds is put back.
pub open spec fn all_failed(outcomes: Seq<bool>) -> bool {
    forall|i: int| 0 <= i < outcomes.len() ==> !outcomes[i]
}

impl CargoChecker {
    /// Decides the next step of one oracle query. `outcomes[i]` tells whether
    /// command `i` exited successfully. Every configured command runs, in
    /// order; once all have run, the answer is valid exactly when all failed.
    pub fn next_step(&self, outcomes: &Vec<bool>) -> (r: OracleStep)
        ensures
            outcomes@.len() < self.cmds@.len() ==> r == OracleStep::Run(outcomes@.len() as usize),
            outcomes@.len() >= self.cmds@.len() ==> r == OracleStep::Done(all_failed(outcomes@)),
    {
        if outcomes.len() < self.cmds.len() {
            return OracleStep::Run(outcomes.len());
        }
        let mut i: usize = 0;
        while i < outcomes.len()
            invariant
                i <= outcomes@.len(),
                outcomes@.len() >= self.cmds@.len(),
                forall|j: int| 0 <= j < i ==> !outcomes@[j],
            decreases outcomes@.len() - i,
        {
            if outcomes[i] {
                return OracleStep::Done(false);
            }
            i = i + 1;
        }
        OracleStep::Done(true)
    }
}

} // verus!
