//! Translation of whole units: instruction indices across a run, start-up code, output.

use vstd::prelude::*;
use crate::codegen::{call_code, init_code};
use crate::command::{Command, translation};
use crate::hack::{Asm, render_all};
use crate::operations::TranslateError;
use crate::text::views;
use substring::Substring;

verus! {

/// The position of the first `.` at or after `i`, if there is one.
pub open spec fn first_dot(s: Seq<char>, i: int) -> Option<int>
    decreases s.len() - i,
{
    if i < 0 || i >= s.len() {
        None
    } else if s[i] == '.' {
        Some(i)
    } else {
        first_dot(s, i + 1)
    }
}

/// Relies on `substring::Substring::substring`: the characters from index `start` up to
/// index `end`, both clipped to the length, and none when `end <= start`.
#[verifier::external_body]
fn char_substring<'a>(s: &'a str, start: usize, end: usize) -> (r: &'a str)
    ensures
        r@ == (if end <= start {
            Seq::<char>::empty()
        } else {
            s@.subrange(
                if start <= s@.len() { start as int } else { s@.len() as int },
                if end <= s@.len() { end as int } else { s@.len() as int },
            )
        }),
{
    s.substring(start, end)
}

/// The name of the unit that a file holds: its name up to the first `.`, or `None` when
/// it has none.
pub fn unit_name(file_name: &str) -> (r: Option<String>)
    ensures
        match first_dot(file_name@, 0) {
            Some(d) => r matches Some(u) && u@ == file_name@.subrange(0, d),
            None => r is None,
        },
{
    let n = file_name.unicode_len();
    let mut i: usize = 0;
    while i < n
        invariant
            n == file_name@.len(),
            i <= n,
            first_dot(file_name@, 0) == first_dot(file_name@, i as int),
        decreases n - i,
    {
        if file_name.get_char(i) == '.' {
            return Some(String::from_str(char_substring(file_name, 0, i)));
        }
        i = i + 1;
    }
    None
}

/// The lines of a unit's source lines translated in order, the first instruction at index
/// `n`, with the index that the next instruction gets; or the first error.
pub open spec fn unit_translation(lines: Seq<Seq<char>>, n: nat, unit: Seq<char>)
    -> Result<(Seq<Seq<char>>, nat), TranslateError>
    decreases lines.len(),
{
    if lines.len() == 0 {
        Ok((Seq::empty(), n))
    } else {
        match unit_translation(lines.drop_last(), n, unit) {
            Err(e) => Err(e),
            Ok((out, m)) => match translation(lines.last(), m, unit) {
                Err(e) => Err(e),
                Ok(None) => Ok((out, m)),
                Ok(Some(code)) => Ok((out + render_all(code), m + 1)),
            },
        }
    }
}

/// The start-up code at index `n`: set the stack pointer, then `call Sys.init 0`.
pub open spec fn bootstrap(n: nat) -> Seq<Seq<char>> {
    render_all(init_code()) + render_all(seq![Asm::Comment("call Sys.init 0"@)]
        + call_code("Sys.init"@, 0, n + 1))
}

/// The lines of a list of commands, in order.
pub open spec fn flatten(cs: Seq<Command>) -> Seq<Seq<char>>
    decreases cs.len(),
{
    if cs.len() == 0 {
        Seq::empty()
    } else {
        flatten(cs.drop_last()) + if cs.last().valid() { cs.last().lines() } else { Seq::empty() }
    }
}

/// Collects the translated instructions of a run.
pub struct Parser {
    /// The path the run reads from
    vm_path: String,
    /// Index of the next instruction
    cmd_cnt: u32,
    /// The translated instructions
    command_list: Vec<Command>,
}

impl Parser {
    /// Index that the next instruction gets.
    pub closed spec fn count(&self) -> nat {
        self.cmd_cnt as nat
    }

    /// All assembly lines so far.
    pub closed spec fn output_spec(&self) -> Seq<Seq<char>> {
        flatten(self.command_list@)
    }

    /// The path given at creation.
    pub closed spec fn path(&self) -> Seq<char> {
        self.vm_path@
    }

    /// An empty run reading from `fname`.
    pub fn new(fname: &str) -> (r: Self)
        ensures
            r.count() == 0,
            r.output_spec() == Seq::<Seq<char>>::empty(),
            r.path() == fname@,
    {
        Parser { vm_path: String::from_str(fname), cmd_cnt: 0, command_list: Vec::new() }
    }

    /// Index that the next instruction gets.
    pub fn instruction_count(&self) -> (r: u32)
        ensures
            r as nat == self.count(),
    {
        self.cmd_cnt
    }

    /// The path given at creation.
    pub fn vm_path(&self) -> (r: &str)
        ensures
            r@ == self.path(),
    {
        self.vm_path.as_str()
    }

    /// Appends the start-up code: the stack pointer set to its base, then a call of
    /// `Sys.init` with no arguments. Takes two instruction indices.
    pub fn write_init(&mut self)
        requires
            old(self).count() + 2 <= u32::MAX,
        ensures
            final(self).count() == old(self).count() + 2,
            final(self).output_spec() == old(self).output_spec() + bootstrap(old(self).count()),
            final(self).path() == old(self).path(),
    {
        let ghost before = self.command_list@;
        let command = Command::start_up(self.cmd_cnt);
        self.cmd_cnt = self.cmd_cnt + 1;
        self.command_list.push(command);
        let ghost mid = self.command_list@;
        let sysinit = Command::call_of("call Sys.init 0", "Sys.init", 0, self.cmd_cnt);
        self.cmd_cnt = self.cmd_cnt + 1;
        self.command_list.push(sysinit);
        proof {
            assert(mid.drop_last() =~= before);
            assert(self.command_list@.drop_last() =~= mid);
            assert(flatten(mid) == flatten(before) + render_all(init_code()));
            let b = bootstrap(old(self).cmd_cnt as nat);
            assert(flatten(self.command_list@) =~= flatten(before) + b);
        }
    }

    /// Translates the source lines of the unit `unit_name` in order, giving each line that
    /// holds an instruction the next index. Stops at the first line that cannot be
    /// translated and returns its error; the run is then to be abandoned.
    pub fn process_unit(&mut self, unit_name: &str, lines: &Vec<String>) -> (r: Result<(), TranslateError>)
        requires
            old(self).count() + lines@.len() <= u32::MAX,
        ensures
            final(self).path() == old(self).path(),
            match unit_translation(views(lines@), old(self).count(), unit_name@) {
                Ok((out, m)) => r is Ok && final(self).count() == m
                    && final(self).output_spec() == old(self).output_spec() + out,
                Err(e) => r == Err::<(), TranslateError>(e),
            },
    {
        let ghost start = flatten(self.command_list@);
        let ghost n0 = self.cmd_cnt as nat;
        let mut i: usize = 0;
        proof {
            assert(views(lines@.subrange(0, 0)) =~= Seq::<Seq<char>>::empty());
            assert(start.subrange(start.len() as int, start.len() as int) =~= Seq::<Seq<char>>::empty());
            assert(start.subrange(0, start.len() as int) =~= start);
        }
        while i < lines.len()
            invariant
                i <= lines@.len(),
                n0 + lines@.len() <= u32::MAX,
                n0 == old(self).cmd_cnt,
                start == flatten(old(self).command_list@),
                self.vm_path == old(self).vm_path,
                self.cmd_cnt <= n0 + i,
                unit_translation(views(lines@.subrange(0, i as int)), n0, unit_name@)
                    == Ok::<(Seq<Seq<char>>, nat), TranslateError>(
                        (flatten(self.command_list@).subrange(start.len() as int,
                            flatten(self.command_list@).len() as int), self.cmd_cnt as nat)),
                flatten(self.command_list@).len() >= start.len(),
                flatten(self.command_list@).subrange(0, start.len() as int) == start,
            decreases lines@.len() - i,
        {
            let ghost prefix = views(lines@.subrange(0, i + 1));
            proof {
                assert(prefix.drop_last() =~= views(lines@.subrange(0, i as int)));
                assert(prefix.last() == lines@[i as int]@);
            }
            let command = match Command::new(lines[i].as_str(), self.cmd_cnt, unit_name) {
                Ok(c) => c,
                Err(e) => {
                    proof {
                        assert(translation(lines@[i as int]@, self.cmd_cnt as nat, unit_name@)
                            == Err::<Option<Seq<Asm>>, TranslateError>(e));
                        assert(unit_translation(prefix, n0, unit_name@)
                            == Err::<(Seq<Seq<char>>, nat), TranslateError>(e));
                        assert(views(lines@).subrange(0, i + 1) =~= prefix);
                        lemma_unit_error_stays(views(lines@), n0, unit_name@, (i + 1) as nat);
                    }
                    return Err(e);
                },
            };
            let ghost before = self.command_list@;
            let ghost fb = flatten(before);
            if command.has_command() {
                self.command_list.push(command);
                self.cmd_cnt = self.cmd_cnt + 1;
                proof {
                    assert(self.command_list@.drop_last() =~= before);
                    let f = flatten(self.command_list@);
                    assert(f == fb + command.lines());
                    assert(f.subrange(0, start.len() as int) =~= fb.subrange(0, start.len() as int));
                    assert(f.subrange(start.len() as int, f.len() as int)
                        =~= fb.subrange(start.len() as int, fb.len() as int) + command.lines());
                }
            }
            i = i + 1;
        }
        proof {
            assert(lines@.subrange(0, lines@.len() as int) =~= lines@);
            let f = flatten(self.command_list@);
            assert(f =~= start + f.subrange(start.len() as int, f.len() as int));
        }
        Ok(())
    }

    /// All assembly lines of the run, in order.
    pub fn assembly(&self) -> (r: Vec<String>)
        ensures
            views(r@) == self.output_spec(),
    {
        let mut out: Vec<String> = Vec::new();
        let mut i: usize = 0;
        while i < self.command_list.len()
            invariant
                i <= self.command_list@.len(),
                views(out@) == flatten(self.command_list@.subrange(0, i as int)),
            decreases self.command_list@.len() - i,
        {
            let ghost before = views(out@);
            let c = &self.command_list[i];
            match c.get_processed() {
                Some(v) => {
                    let mut j: usize = 0;
                    while j < v.len()
                        invariant
                            j <= v@.len(),
                            views(out@) == before + views(v@).subrange(0, j as int),
                        decreases v@.len() - j,
                    {
                        let ghost o = views(out@);
                        out.push(v[j].clone());
                        proof {
                            assert(views(out@) =~= o.push(v@[j as int]@));
                            assert(views(v@).subrange(0, j + 1) =~= views(v@).subrange(0, j as int).push(v@[j as int]@));
                        }
                        j = j + 1;
                    }
                    proof {
                        assert(views(v@).subrange(0, v@.len() as int) =~= views(v@));
                    }
                },
                None => {
                    proof {
                        assert(before =~= before + Seq::<Seq<char>>::empty());
                    }
                },
            }
            proof {
                assert(self.command_list@.subrange(0, i + 1).drop_last()
                    =~= self.command_list@.subrange(0, i as int));
            }
            i = i + 1;
        }
        proof {
            assert(self.command_list@.subrange(0, self.command_list@.len() as int) =~= self.command_list@);
        }
        out
    }
}

/// Once a prefix of a unit fails, the whole unit fails with the same error.
pub proof fn lemma_unit_error_stays(lines: Seq<Seq<char>>, n: nat, unit: Seq<char>, k: nat)
    requires
        k <= lines.len(),
        unit_translation(lines.subrange(0, k as int), n, unit) is Err,
    ensures
        unit_translation(lines, n, unit) == unit_translation(lines.subrange(0, k as int), n, unit),
    decreases lines.len() - k,
{
    if k < lines.len() {
        let p = lines.subrange(0, (k + 1) as int);
        assert(p.drop_last() =~= lines.subrange(0, k as int));
        lemma_unit_error_stays(lines, n, unit, k + 1);
    } else {
        assert(lines.subrange(0, k as int) =~= lines);
    }
}

} // verus!
