//! The text buffer that every backend writes into.

use vstd::prelude::*;
use crate::config::{stmts_view, Stmt, StmtView};
use crate::text::{decimal, digit_str, lemma_tabs_add, line, tabs};

pub mod luau;
pub mod typescript;

verus! {

/// The line of one statement at depth `d`, for a value called `name`;
/// nothing for a check where checks are switched off.
pub open spec fn stmt_text(s: StmtView, checks: bool, name: Seq<char>, d: nat) -> Seq<char> {
    if s.check && !checks {
        Seq::empty()
    } else {
        line(d + s.depth, s.text(name))
    }
}

/// The lines of a sequence of statements at depth `d`, in order, for a value
/// called `name`.
pub open spec fn stmts_text(stmts: Seq<StmtView>, checks: bool, name: Seq<char>, d: nat) -> Seq<
    char,
>
    decreases stmts.len(),
{
    if stmts.len() == 0 {
        Seq::empty()
    } else {
        stmts_text(stmts.drop_last(), checks, name, d) + stmt_text(stmts.last(), checks, name, d)
    }
}

/// The lines, at depth `d` and in order, of those statements whose `check`
/// mark is `check`.
pub open spec fn part_text(stmts: Seq<StmtView>, check: bool, name: Seq<char>, d: nat) -> Seq<
    char,
>
    decreases stmts.len(),
{
    if stmts.len() == 0 {
        Seq::empty()
    } else {
        part_text(stmts.drop_last(), check, name, d) + (if stmts.last().check == check {
            line(d + stmts.last().depth, stmts.last().text(name))
        } else {
            Seq::empty()
        })
    }
}

/// The validating statements among `stmts`, in order; nothing where checks
/// are switched off.
pub open spec fn checks_text(stmts: Seq<StmtView>, checks: bool, name: Seq<char>, d: nat) -> Seq<
    char,
> {
    if checks {
        part_text(stmts, true, name, d)
    } else {
        Seq::empty()
    }
}

/// The writing statements among `stmts`, in order.
pub open spec fn writes_text(stmts: Seq<StmtView>, name: Seq<char>, d: nat) -> Seq<char> {
    part_text(stmts, false, name, d)
}

/// Text under construction, together with the current nesting depth.
pub struct Output {
    tabs: u32,
    buf: String,
}

impl View for Output {
    type V = Seq<char>;

    /// The text written so far.
    closed spec fn view(&self) -> Seq<char> {
        self.buf@
    }
}

impl Output {
    /// The current nesting depth, in tabs.
    pub closed spec fn depth(&self) -> nat {
        self.tabs as nat
    }

    /// An empty buffer at depth 0.
    pub fn new() -> (out: Output)
        ensures
            out@ == Seq::<char>::empty(),
            out.depth() == 0,
    {
        Output { tabs: 0, buf: String::new() }
    }

    /// Appends `s` as it is.
    pub fn push(&mut self, s: &str)
        ensures
            final(self)@ == old(self)@ + s@,
            final(self).depth() == old(self).depth(),
    {
        self.buf.append(s);
    }

    /// Enters one nesting level.
    pub fn indent(&mut self)
        requires
            old(self).depth() < u32::MAX,
        ensures
            final(self)@ == old(self)@,
            final(self).depth() == old(self).depth() + 1,
    {
        self.tabs += 1;
    }

    /// Leaves one nesting level.
    pub fn dedent(&mut self)
        requires
            old(self).depth() > 0,
        ensures
            final(self)@ == old(self)@,
            final(self).depth() == old(self).depth() - 1,
    {
        self.tabs -= 1;
    }

    /// Appends `n` tabs.
    pub fn push_tabs(&mut self, n: u32)
        ensures
            final(self)@ == old(self)@ + tabs(n as nat),
            final(self).depth() == old(self).depth(),
    {
        let mut i: u32 = 0;
        proof {
            reveal_with_fuel(tabs, 2);
        }
        assert(self@ =~= old(self)@ + tabs(0));
        while i < n
            invariant
                i <= n,
                self.tabs == old(self).tabs,
                self@ == old(self)@ + tabs(i as nat),
            decreases n - i,
        {
            self.push("\t");
            i += 1;
            proof {
                reveal_with_fuel(tabs, 2);
            }
            assert(self@ =~= old(self)@ + tabs(i as nat));
        }
    }

    /// Appends the indentation of the current depth.
    pub fn push_indent(&mut self)
        ensures
            final(self)@ == old(self)@ + tabs(old(self).depth()),
            final(self).depth() == old(self).depth(),
    {
        self.push_tabs(self.tabs);
    }

    /// Appends `s` as one line at the current depth.
    pub fn push_line(&mut self, s: &str)
        ensures
            final(self)@ == old(self)@ + line(old(self).depth(), s@),
            final(self).depth() == old(self).depth(),
    {
        self.push_indent();
        self.push(s);
        self.push("\n");
        proof {
            reveal(line);
            assert(self@ =~= old(self)@ + line(old(self).depth(), s@));
        }
    }

    /// Appends the decimal numeral of `n`.
    pub fn push_usize(&mut self, n: usize)
        ensures
            final(self)@ == old(self)@ + decimal(n as nat),
            final(self).depth() == old(self).depth(),
        decreases n,
    {
        if n >= 10 {
            self.push_usize(n / 10);
        }
        self.push(digit_str(n % 10));
        assert(self@ =~= old(self)@ + decimal(n as nat));
    }

    /// Appends one statement below the current depth, for a value called
    /// `name`, unless it is a check and `checks` is off.
    pub fn push_stmt(&mut self, stmt: &Stmt, checks: bool, name: &str)
        ensures
            final(self)@ == old(self)@ + stmt_text(stmt@, checks, name@, old(self).depth()),
            final(self).depth() == old(self).depth(),
    {
        if stmt.check && !checks {
            assert(self@ =~= old(self)@ + stmt_text(stmt@, checks, name@, old(self).depth()));
        } else {
            let text = stmt.render(name);
            self.push_indent();
            self.push_tabs(stmt.depth);
            self.push(text.as_str());
            self.push("\n");
            proof {
                reveal(line);
                lemma_tabs_add(old(self).depth(), stmt.depth as nat);
                assert(self@ =~= old(self)@ + (tabs(old(self).depth()) + tabs(stmt.depth as nat)
                    + text@ + "\n"@));
            }
        }
    }

    /// Appends a sequence of statements below the current depth, for a value
    /// called `name`.
    pub fn push_stmts(&mut self, stmts: &Vec<Stmt>, checks: bool, name: &str)
        ensures
            final(self)@ == old(self)@ + stmts_text(
                stmts_view(stmts@),
                checks,
                name@,
                old(self).depth(),
            ),
            final(self).depth() == old(self).depth(),
    {
        let ghost all = stmts_view(stmts@);
        let mut i: usize = 0;
        assert(self@ =~= old(self)@ + stmts_text(all.take(0), checks, name@, old(self).depth()));
        while i < stmts.len()
            invariant
                i <= stmts.len(),
                all == stmts_view(stmts@),
                self.depth() == old(self).depth(),
                self@ == old(self)@ + stmts_text(
                    all.take(i as int),
                    checks,
                    name@,
                    old(self).depth(),
                ),
            decreases stmts.len() - i,
        {
            self.push_stmt(&stmts[i], checks, name);
            proof {
                let next = all.take(i + 1);
                assert(next.drop_last() =~= all.take(i as int));
                assert(next.last() == stmts@[i as int]@);
                assert(self@ =~= old(self)@ + stmts_text(next, checks, name@, old(self).depth()));
            }
            i += 1;
        }
        assert(all.take(i as int) =~= all);
    }

    /// Appends those statements whose `check` mark is `check`, below the
    /// current depth, for a value called `name`.
    pub fn push_part(&mut self, stmts: &Vec<Stmt>, check: bool, name: &str)
        ensures
            final(self)@ == old(self)@ + part_text(
                stmts_view(stmts@),
                check,
                name@,
                old(self).depth(),
            ),
            final(self).depth() == old(self).depth(),
    {
        let ghost all = stmts_view(stmts@);
        let mut i: usize = 0;
        assert(self@ =~= old(self)@ + part_text(all.take(0), check, name@, old(self).depth()));
        while i < stmts.len()
            invariant
                i <= stmts.len(),
                all == stmts_view(stmts@),
                self.depth() == old(self).depth(),
                self@ == old(self)@ + part_text(
                    all.take(i as int),
                    check,
                    name@,
                    old(self).depth(),
                ),
            decreases stmts.len() - i,
        {
            if stmts[i].check == check {
                self.push_stmt(&stmts[i], true, name);
            }
            proof {
                let next = all.take(i + 1);
                assert(next.drop_last() =~= all.take(i as int));
                assert(next.last() == stmts@[i as int]@);
                assert(self@ =~= old(self)@ + part_text(next, check, name@, old(self).depth()));
            }
            i += 1;
        }
        assert(all.take(i as int) =~= all);
    }

    /// Appends the validating statements among `stmts`, unless `checks` is
    /// off.
    pub fn push_checks(&mut self, stmts: &Vec<Stmt>, checks: bool, name: &str)
        ensures
            final(self)@ == old(self)@ + checks_text(
                stmts_view(stmts@),
                checks,
                name@,
                old(self).depth(),
            ),
            final(self).depth() == old(self).depth(),
    {
        if checks {
            self.push_part(stmts, true, name);
        } else {
            assert(self@ =~= old(self)@ + Seq::<char>::empty());
        }
    }

    /// Appends the writing statements among `stmts`.
    pub fn push_writes(&mut self, stmts: &Vec<Stmt>, name: &str)
        ensures
            final(self)@ == old(self)@ + writes_text(stmts_view(stmts@), name@, old(self).depth()),
            final(self).depth() == old(self).depth(),
    {
        self.push_part(stmts, false, name);
    }

    /// Hands out the finished text.
    pub fn finish(self) -> (s: String)
        ensures
            s@ == self@,
    {
        self.buf
    }
}

} // verus!
