//! The command-line surface: flags are tokens beginning with `--`, each
//! consuming the value tokens that follow it until the next flag or the
//! end of the input.  The first input token (the program name) is
//! skipped.

use vstd::prelude::*;
use crate::strutil::{spec_join, join, str_eq};

verus! {

/// One parsed flag: its name with the leading dashes removed, and the
/// value tokens that followed it.
pub struct Argument {
    pub key: String,
    pub value: Vec<String>,
}

/// The mathematical shape of one parsed flag.
pub struct ArgView {
    pub key: Seq<char>,
    pub value: Seq<Seq<char>>,
}

impl View for Argument {
    type V = ArgView;

    open spec fn view(&self) -> ArgView {
        ArgView { key: self.key@, value: self.value.deep_view() }
    }
}

impl DeepView for Argument {
    type V = ArgView;

    open spec fn deep_view(&self) -> ArgView {
        self.view()
    }
}

/// Whether a token is a flag: it begins with two dashes.
pub open spec fn spec_is_flag(t: Seq<char>) -> bool {
    t.len() >= 2 && t[0] == '-' && t[1] == '-'
}

/// A flag token with every repetition of the leading `--` removed.
pub open spec fn spec_strip_dashes(t: Seq<char>) -> Seq<char>
    decreases t.len(),
{
    if spec_is_flag(t) {
        spec_strip_dashes(t.skip(2))
    } else {
        t
    }
}

/// One step of parsing: a flag token closes the flag under construction
/// and opens a new one; any other token extends the flag under
/// construction, or is dropped when no flag is open yet.
pub open spec fn spec_parse_step(
    done: Seq<ArgView>,
    cur: Option<ArgView>,
    tok: Seq<char>,
) -> (Seq<ArgView>, Option<ArgView>) {
    if spec_is_flag(tok) {
        (
            match cur {
                Option::Some(a) => done.push(a),
                Option::None => done,
            },
            Option::Some(ArgView { key: spec_strip_dashes(tok), value: Seq::empty() }),
        )
    } else {
        match cur {
            Option::Some(a) => (done, Option::Some(ArgView { key: a.key, value: a.value.push(tok) })),
            Option::None => (done, Option::None),
        }
    }
}

/// Parsing folded over the tokens after the program name.
pub open spec fn spec_parse_fold(toks: Seq<Seq<char>>) -> (Seq<ArgView>, Option<ArgView>)
    decreases toks.len(),
{
    if toks.len() == 0 {
        (Seq::empty(), Option::None)
    } else {
        let s = spec_parse_fold(toks.drop_last());
        spec_parse_step(s.0, s.1, toks.last())
    }
}

/// The flags parsed from the full input, the flag still under
/// construction at the end included.
pub open spec fn spec_parse(input: Seq<Seq<char>>) -> Seq<ArgView> {
    if input.len() == 0 {
        Seq::empty()
    } else {
        let s = spec_parse_fold(input.skip(1));
        match s.1 {
            Option::Some(a) => s.0.push(a),
            Option::None => s.0,
        }
    }
}

fn is_flag(t: &str) -> (r: bool)
    ensures
        r == spec_is_flag(t@),
{
    t.unicode_len() >= 2 && t.get_char(0) == '-' && t.get_char(1) == '-'
}

fn strip_dashes(t: &str) -> (r: &str)
    ensures
        r@ == spec_strip_dashes(t@),
{
    let mut cur: &str = t;
    while is_flag(cur)
        invariant
            spec_strip_dashes(t@) == spec_strip_dashes(cur@),
        decreases cur@.len(),
    {
        let n = cur.unicode_len();
        let next = cur.substring_char(2, n);
        proof {
            assert(next@ =~= cur@.skip(2));
        }
        cur = next;
    }
    cur
}

/// The parsed command line.
pub struct ArgHelper {
    pub args: Vec<Argument>,
}

impl ArgHelper {
    /// An empty set of parsed flags.
    pub fn new() -> (r: ArgHelper)
        ensures
            r.args@.len() == 0,
    {
        ArgHelper { args: Vec::new() }
    }

    /// Parses the full input, as [`spec_parse`] describes: the first
    /// token is skipped, flag tokens open flags, other tokens become
    /// the open flag's values.
    pub fn parse(input: Vec<String>) -> (r: ArgHelper)
        ensures
            r.args.deep_view() == spec_parse(input.deep_view()),
    {
        let ghost toks = input.deep_view();
        let mut helper = ArgHelper::new();
        if input.len() == 0 {
            proof {
                assert(helper.args.deep_view() =~= spec_parse(toks));
            }
            return helper;
        }
        let mut cur: Option<Argument> = None;
        let mut i: usize = 1;
        proof {
            assert(toks.skip(1).take(0) =~= Seq::<Seq<char>>::empty());
        }
        while i < input.len()
            invariant
                1 <= i <= toks.len(),
                toks.len() == input@.len(),
                input.deep_view() == toks,
                spec_parse_fold(toks.skip(1).take(i - 1)) == (
                    helper.args.deep_view(),
                    match cur {
                        Option::Some(a) => Option::Some(a@),
                        Option::None => Option::<ArgView>::None,
                    },
                ),
            decreases toks.len() - i,
        {
            let tok: &String = &input[i];
            proof {
                assert(toks.skip(1).take(i as int).last() == toks[i as int]);
                assert(toks.skip(1).take(i as int).drop_last() =~= toks.skip(1).take(i - 1));
                assert(tok@ == toks[i as int]);
            }
            if is_flag(tok.as_str()) {
                match cur {
                    Some(argument) => {
                        helper.add(argument);
                    },
                    None => {},
                }
                cur = Some(
                    Argument { key: String::from_str(strip_dashes(tok.as_str())), value: Vec::new() },
                );
                proof {
                    let a = cur.unwrap();
                    assert(a@.value =~= Seq::<Seq<char>>::empty());
                }
            } else {
                cur = match cur {
                    Some(mut argument) => {
                        let ghost ov = argument.value.deep_view();
                        argument.value.push(tok.clone());
                        proof {
                            assert(argument.value.deep_view() =~= ov.push(tok@));
                        }
                        Some(argument)
                    },
                    None => None,
                };
            }
            proof {
                assert(helper.args.deep_view() =~= spec_parse_fold(toks.skip(1).take(i as int)).0);
                assert(spec_parse_fold(toks.skip(1).take(i as int)) == (
                    helper.args.deep_view(),
                    match cur {
                        Option::Some(a) => Option::Some(a@),
                        Option::None => Option::<ArgView>::None,
                    },
                ));
            }
            i = i + 1;
        }
        proof {
            assert(toks.skip(1).take(toks.len() - 1) =~= toks.skip(1));
        }
        match cur {
            Some(argument) => {
                helper.add(argument);
            },
            None => {},
        }
        proof {
            assert(helper.args.deep_view() =~= spec_parse(toks));
        }
        helper
    }

    /// Appends one parsed flag.
    pub fn add(&mut self, arg: Argument)
        ensures
            final(self).args@ == old(self).args@.push(arg),
            final(self).args.deep_view() =~= old(self).args.deep_view().push(arg@),
    {
        self.args.push(arg);
        proof {
            assert(self.args.deep_view() =~= old(self).args.deep_view().push(arg@));
        }
    }

    /// The first parsed flag named `key`, if any.
    pub fn get(&self, key: &str) -> (r: Option<&Argument>)
        ensures
            match r {
                Some(a) => exists|i: int|
                    0 <= i < self.args@.len() && (#[trigger] self.args@[i])@.key == key@ && *a
                        == self.args@[i],
                None => forall|i: int|
                    0 <= i < self.args@.len() ==> (#[trigger] self.args@[i])@.key != key@,
            },
    {
        let mut i: usize = 0;
        while i < self.args.len()
            invariant
                0 <= i <= self.args@.len(),
                forall|j: int| 0 <= j < i ==> (#[trigger] self.args@[j])@.key != key@,
            decreases self.args@.len() - i,
        {
            if str_eq(self.args[i].key.as_str(), key) {
                return Some(&self.args[i]);
            }
            i = i + 1;
        }
        None
    }

    /// The values of the first parsed flag named `key`, joined with
    /// single spaces; `None` when no flag carries that name.
    pub fn get_value(&self, key: &str) -> (r: Option<String>)
        ensures
            match r {
                Some(s) => exists|i: int|
                    0 <= i < self.args@.len() && (#[trigger] self.args@[i])@.key == key@ && s@
                        == spec_join(self.args@[i]@.value, " "@) && forall|j: int|
                        0 <= j < i ==> (#[trigger] self.args@[j])@.key != key@,
                None => forall|i: int|
                    0 <= i < self.args@.len() ==> (#[trigger] self.args@[i])@.key != key@,
            },
    {
        let mut i: usize = 0;
        while i < self.args.len()
            invariant
                0 <= i <= self.args@.len(),
                forall|j: int| 0 <= j < i ==> (#[trigger] self.args@[j])@.key != key@,
            decreases self.args@.len() - i,
        {
            if str_eq(self.args[i].key.as_str(), key) {
                return Some(join(&self.args[i].value, " "));
            }
            i = i + 1;
        }
        None
    }
}

} // verus!
