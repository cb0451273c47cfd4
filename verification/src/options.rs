//! Reading a command's arguments and the match options among them.
use vstd::prelude::*;
use crate::models::HcOptions;
use crate::text::{parse_u8, parse_unsigned, str_eq};

verus! {

/// The arguments of a command, split into tokens, with a cursor on the
/// current one.  The cursor never passes the end.
pub struct ArgCursor {
    pub tokens: Vec<String>,
    pub offset: usize,
}

/// The cursor position after one advance: the next token, unless the
/// cursor is already past the last one.
pub open spec fn stepped(offset: nat, len: nat) -> nat {
    if offset < len {
        offset + 1
    } else {
        offset
    }
}

impl ArgCursor {
    /// The tokens as character sequences.
    pub open spec fn toks(&self) -> Seq<Seq<char>> {
        self.tokens.deep_view()
    }

    /// Moves the cursor to the next token.
    pub fn advance(&mut self)
        ensures
            final(self).toks() == old(self).toks(),
            final(self).offset == stepped(old(self).offset as nat, old(self).toks().len()),
    {
        if self.offset < self.tokens.len() {
            self.offset = self.offset + 1;
        }
    }

    /// The token under the cursor, if any.
    pub fn current(&self) -> (r: Option<&String>)
        ensures
            match r {
                Some(t) => self.offset < self.toks().len() && t@ == self.toks()[self.offset as int],
                None => self.offset >= self.toks().len(),
            },
    {
        if self.offset < self.tokens.len() {
            Some(&self.tokens[self.offset])
        } else {
            None
        }
    }

    /// The token under the cursor, after which the cursor advances.
    pub fn single(&mut self) -> (r: Option<String>)
        ensures
            final(self).toks() == old(self).toks(),
            final(self).offset == stepped(old(self).offset as nat, old(self).toks().len()),
            match r {
                Some(t) => old(self).offset < old(self).toks().len()
                    && t@ == old(self).toks()[old(self).offset as int],
                None => old(self).offset >= old(self).toks().len(),
            },
    {
        let r = match self.current() {
            Some(t) => Some(t.clone()),
            None => None,
        };
        self.advance();
        r
    }
}

/// The error for a `--wickets` flag without a valid number.
pub open spec fn wickets_message() -> Seq<char> {
    "Given value for `wickets` flag is not valid, try for a number from 1 to 10."@
}

/// The error for an `--overs` flag without a valid number.
pub open spec fn overs_message() -> Seq<char> {
    "Given value for `overs` flag is not valid, try for a number from 1 to 10."@
}

/// A count that a flag may set: from 1 to 10.
pub open spec fn in_flag_range(n: nat) -> bool {
    0 < n && n < 11
}

/// Reads the options from the cursor at `off` on, with `acc` the options
/// read so far.  Each round first advances the cursor, then looks at the
/// token under it; `--wickets` and `--overs` advance once more and read
/// the number there.  The result is the options or the error, and where
/// the cursor stopped.
pub open spec fn scan_options(toks: Seq<Seq<char>>, off: nat, acc: HcOptions) -> (Result<HcOptions, Seq<char>>, nat)
    decreases toks.len() - off,
{
    let o1 = stepped(off, toks.len());
    if o1 >= toks.len() {
        (Ok(acc), o1)
    } else if toks[o1 as int] == "--post"@ {
        scan_options(toks, o1, HcOptions { post: true, ..acc })
    } else if toks[o1 as int] == "--wickets"@ {
        let o2 = stepped(o1, toks.len());
        if o2 >= toks.len() {
            (Err(wickets_message()), o2)
        } else {
            match parse_unsigned(toks[o2 as int], 255) {
                Err(_) => (Err(wickets_message()), o2),
                Ok(n) => scan_options(
                    toks,
                    o2,
                    if in_flag_range(n) { HcOptions { wickets: n as u8, ..acc } } else { acc },
                ),
            }
        }
    } else if toks[o1 as int] == "--overs"@ {
        let o2 = stepped(o1, toks.len());
        if o2 >= toks.len() {
            (Err(overs_message()), o2)
        } else {
            match parse_unsigned(toks[o2 as int], 255) {
                Err(_) => (Err(overs_message()), o2),
                Ok(n) => scan_options(
                    toks,
                    o2,
                    if in_flag_range(n) { HcOptions { overs: n as u8, ..acc } } else { acc },
                ),
            }
        }
    } else {
        scan_options(toks, o1, acc)
    }
}

/// Reads one flag's number: advances the cursor and parses the token under
/// it as a `u8`.
fn flag_value(args: &mut ArgCursor) -> (r: Option<u8>)
    ensures
        final(args).toks() == old(args).toks(),
        final(args).offset == stepped(old(args).offset as nat, old(args).toks().len()),
        match r {
            Some(n) => final(args).offset < final(args).toks().len()
                && parse_unsigned(final(args).toks()[final(args).offset as int], 255)
                    == Ok::<nat, crate::text::IntErrorKind>(n as nat),
            None => final(args).offset >= final(args).toks().len()
                || parse_unsigned(final(args).toks()[final(args).offset as int], 255) is Err,
        },
{
    args.advance();
    match args.current() {
        None => None,
        Some(t) => match parse_u8(t.as_str()) {
            Ok(n) => Some(n),
            Err(_) => None,
        },
    }
}

/// Reads the match options (`--post`, `--wickets <n>`, `--overs <n>`) from
/// the arguments after the cursor.  Unknown tokens are skipped, and a
/// number outside 1 to 10 leaves the count as it was; a flag without a
/// number is an error.
pub fn get_hc_options(args: &mut ArgCursor) -> (r: Result<HcOptions, String>)
    ensures
        final(args).toks() == old(args).toks(),
        ({
            let (res, off) = scan_options(old(args).toks(), old(args).offset as nat, HcOptions { post: false, wickets: 1, overs: 4 });
            &&& final(args).offset == off
            &&& match r {
                Ok(o) => res == Ok::<HcOptions, Seq<char>>(o),
                Err(e) => res == Err::<HcOptions, Seq<char>>(e@),
            }
        }),
{
    let mut options = HcOptions::standard();
    let ghost toks = args.toks();
    let ghost goal = scan_options(toks, args.offset as nat, options);
    loop
        invariant
            args.toks() == toks,
            toks == old(args).toks(),
            goal == scan_options(old(args).toks(), old(args).offset as nat, HcOptions { post: false, wickets: 1, overs: 4 }),
            scan_options(toks, args.offset as nat, options) == goal,
        decreases toks.len() - args.offset,
    {
        let ghost before = args.offset as nat;
        args.advance();
        let arg = match args.current() {
            None => {
                return Ok(options);
            }
            Some(a) => a.clone(),
        };
        if str_eq(arg.as_str(), "--post") {
            options.post = true;
        } else if str_eq(arg.as_str(), "--wickets") {
            match flag_value(args) {
                None => {
                    return Err("Given value for `wickets` flag is not valid, try for a number from 1 to 10.".to_owned());
                }
                Some(num) => {
                    if num < 11 && num > 0 {
                        options.wickets = num;
                    }
                }
            }
        } else if str_eq(arg.as_str(), "--overs") {
            match flag_value(args) {
                None => {
                    return Err("Given value for `overs` flag is not valid, try for a number from 1 to 10.".to_owned());
                }
                Some(num) => {
                    if num < 11 && num > 0 {
                        options.overs = num;
                    }
                }
            }
        }
        assert(before < args.offset);
    }
}

} // verus!

verus! {

/// Options whose counts lie in the flags' range.
pub open spec fn counts_in_range(o: HcOptions) -> bool {
    1 <= o.wickets <= 10 && 1 <= o.overs <= 10
}

/// Whatever the arguments, options that are read successfully have 1 to
/// 10 wickets and 1 to 10 overs.
pub proof fn lemma_options_in_range(toks: Seq<Seq<char>>, off: nat, acc: HcOptions)
    requires
        counts_in_range(acc),
    ensures
        scan_options(toks, off, acc).0 matches Ok(o) ==> counts_in_range(o),
    decreases toks.len() - off,
{
    let o1 = stepped(off, toks.len());
    if o1 >= toks.len() {
    } else if toks[o1 as int] == "--post"@ {
        lemma_options_in_range(toks, o1, HcOptions { post: true, ..acc });
    } else if toks[o1 as int] == "--wickets"@ || toks[o1 as int] == "--overs"@ {
        let o2 = stepped(o1, toks.len());
        if o2 < toks.len() {
            match parse_unsigned(toks[o2 as int], 255) {
                Err(_) => {},
                Ok(n) => {
                    if toks[o1 as int] == "--wickets"@ {
                        lemma_options_in_range(toks, o2, if in_flag_range(n) { HcOptions { wickets: n as u8, ..acc } } else { acc });
                    } else {
                        lemma_options_in_range(toks, o2, if in_flag_range(n) { HcOptions { overs: n as u8, ..acc } } else { acc });
                    }
                },
            }
        }
    } else {
        lemma_options_in_range(toks, o1, acc);
    }
}

} // verus!

verus! {

/// One flag of the match options as it is written in a command: `--post`,
/// or `--wickets` / `--overs` followed by the token of its number.
pub enum FlagGroup {
    Post,
    Wickets(Seq<char>),
    Overs(Seq<char>),
}

/// The number of a `--wickets` or `--overs` group is written as a `u8`
/// (any spelling that parses: `5`, `05`, `+5`).
pub open spec fn written_as_u8(g: FlagGroup) -> bool {
    match g {
        FlagGroup::Post => true,
        FlagGroup::Wickets(t) => parse_unsigned(t, 255) is Ok,
        FlagGroup::Overs(t) => parse_unsigned(t, 255) is Ok,
    }
}

/// The count that the token `t` sets: its value where it parses and lies
/// in 1 to 10.
pub open spec fn flag_count(t: Seq<char>) -> Option<u8> {
    match parse_unsigned(t, 255) {
        Ok(n) => if in_flag_range(n) { Some(n as u8) } else { None },
        Err(_) => None,
    }
}

/// The tokens of one flag group.
pub open spec fn group_tokens(g: FlagGroup) -> Seq<Seq<char>> {
    match g {
        FlagGroup::Post => seq!["--post"@],
        FlagGroup::Wickets(t) => seq!["--wickets"@, t],
        FlagGroup::Overs(t) => seq!["--overs"@, t],
    }
}

/// The tokens of flag groups written one after the other.
pub open spec fn flag_tokens(gs: Seq<FlagGroup>) -> Seq<Seq<char>>
    decreases gs.len(),
{
    if gs.len() == 0 {
        Seq::empty()
    } else {
        group_tokens(gs[0]) + flag_tokens(gs.drop_first())
    }
}

/// The count that group `g` sets: of wickets where `wickets` holds, of
/// overs otherwise; none for another flag or a number outside 1 to 10.
pub open spec fn count_set(g: FlagGroup, wickets: bool) -> Option<u8> {
    match g {
        FlagGroup::Post => None,
        FlagGroup::Wickets(t) => if wickets { flag_count(t) } else { None },
        FlagGroup::Overs(t) => if !wickets { flag_count(t) } else { None },
    }
}

/// The count after group `g`, where it was `fallback` before.
pub open spec fn count_after(g: FlagGroup, wickets: bool, fallback: u8) -> u8 {
    match count_set(g, wickets) {
        Some(v) => v,
        None => fallback,
    }
}

/// The count that the last group setting it gives, or `fallback` where no
/// group sets it.
pub open spec fn last_count(gs: Seq<FlagGroup>, wickets: bool, fallback: u8) -> u8
    decreases gs.len(),
{
    if gs.len() == 0 {
        fallback
    } else {
        count_after(gs.last(), wickets, last_count(gs.drop_last(), wickets, fallback))
    }
}

/// The options that flag groups give over `acc`: posted where `--post`
/// occurs, and each count from the last group that sets it.
pub open spec fn options_from(gs: Seq<FlagGroup>, acc: HcOptions) -> HcOptions {
    HcOptions {
        post: acc.post || gs.contains(FlagGroup::Post),
        wickets: last_count(gs, true, acc.wickets),
        overs: last_count(gs, false, acc.overs),
    }
}

/// The options after one group.
pub open spec fn apply_group(g: FlagGroup, acc: HcOptions) -> HcOptions {
    HcOptions {
        post: acc.post || g == FlagGroup::Post,
        wickets: count_after(g, true, acc.wickets),
        overs: count_after(g, false, acc.overs),
    }
}

/// Two groups of the same flag.
pub open spec fn same_kind(a: FlagGroup, b: FlagGroup) -> bool {
    match a {
        FlagGroup::Post => b is Post,
        FlagGroup::Wickets(_) => b is Wickets,
        FlagGroup::Overs(_) => b is Overs,
    }
}

/// No flag is given twice.
pub open spec fn each_flag_once(gs: Seq<FlagGroup>) -> bool {
    forall|i: int, j: int| 0 <= i < j < gs.len() ==> !same_kind(#[trigger] gs[i], #[trigger] gs[j])
}

proof fn lemma_last_count_front(gs: Seq<FlagGroup>, wickets: bool, fallback: u8)
    requires
        gs.len() > 0,
    ensures
        last_count(gs, wickets, fallback) == last_count(gs.drop_first(), wickets, count_after(gs[0], wickets, fallback)),
    decreases gs.len(),
{
    if gs.len() == 1 {
        assert(gs.drop_last() =~= Seq::<FlagGroup>::empty());
        assert(gs.drop_first() =~= Seq::<FlagGroup>::empty());
    } else {
        lemma_last_count_front(gs.drop_last(), wickets, fallback);
        assert(gs.drop_last().drop_first() =~= gs.drop_first().drop_last());
        assert(gs.drop_first().last() == gs.last());
        assert(gs.drop_last()[0] == gs[0]);
    }
}

proof fn lemma_options_from_front(gs: Seq<FlagGroup>, acc: HcOptions)
    requires
        gs.len() > 0,
    ensures
        options_from(gs, acc) == options_from(gs.drop_first(), apply_group(gs[0], acc)),
{
    lemma_last_count_front(gs, true, acc.wickets);
    lemma_last_count_front(gs, false, acc.overs);
    let rest = gs.drop_first();
    if gs.contains(FlagGroup::Post) {
        let i = choose|i: int| 0 <= i < gs.len() && gs[i] == FlagGroup::Post;
        if i > 0 {
            assert(rest[i - 1] == gs[i]);
        }
    }
    if rest.contains(FlagGroup::Post) {
        let i = choose|i: int| 0 <= i < rest.len() && rest[i] == FlagGroup::Post;
        assert(gs[i + 1] == rest[i]);
    }
    if gs[0] == FlagGroup::Post {
        assert(gs.contains(FlagGroup::Post));
    }
}

/// Flag groups written after the token under the cursor are read in full:
/// the result is the options they give, and the cursor ends past them.
pub proof fn lemma_scan_flag_groups(pre: Seq<Seq<char>>, gs: Seq<FlagGroup>, acc: HcOptions)
    requires
        pre.len() >= 1,
        forall|i: int| 0 <= i < gs.len() ==> written_as_u8(#[trigger] gs[i]),
    ensures
        scan_options(pre + flag_tokens(gs), (pre.len() - 1) as nat, acc)
            == (Ok::<HcOptions, Seq<char>>(options_from(gs, acc)), (pre + flag_tokens(gs)).len()),
    decreases gs.len(),
{
    reveal_strlit("--post");
    reveal_strlit("--wickets");
    reveal_strlit("--overs");
    let toks = pre + flag_tokens(gs);
    if gs.len() == 0 {
        assert(toks =~= pre);
        assert(!gs.contains(FlagGroup::Post));
        assert(options_from(gs, acc) == acc);
    } else {
        let g = gs[0];
        let rest = gs.drop_first();
        let pre2 = pre + group_tokens(g);
        assert(toks =~= pre2 + flag_tokens(rest));
        assert(written_as_u8(gs[0]));
        assert forall|i: int| 0 <= i < rest.len() implies written_as_u8(#[trigger] rest[i]) by {
            assert(rest[i] == gs[i + 1]);
        }
        lemma_scan_flag_groups(pre2, rest, apply_group(g, acc));
        lemma_options_from_front(gs, acc);
        assert(toks[pre.len() as int] == group_tokens(g)[0]);
        match g {
            FlagGroup::Post => {},
            FlagGroup::Wickets(t) => {
                assert(toks[pre.len() + 1int] == t);
                assert("--wickets"@.len() != "--post"@.len());
            },
            FlagGroup::Overs(t) => {
                assert(toks[pre.len() + 1int] == t);
                assert("--overs"@.len() != "--post"@.len());
                assert("--overs"@.len() != "--wickets"@.len());
            },
        }
    }
}

proof fn lemma_last_count_single(gs: Seq<FlagGroup>, wickets: bool, fallback: u8)
    requires
        each_flag_once(gs),
    ensures
        forall|i: int| 0 <= i < gs.len() && #[trigger] count_set(gs[i], wickets) is Some
            ==> Some(last_count(gs, wickets, fallback)) == count_set(gs[i], wickets),
        (forall|i: int| 0 <= i < gs.len() ==> #[trigger] count_set(gs[i], wickets) is None)
            ==> last_count(gs, wickets, fallback) == fallback,
    decreases gs.len(),
{
    if gs.len() > 0 {
        let front = gs.drop_last();
        let k = gs.len() - 1;
        assert forall|i: int, j: int| 0 <= i < j < front.len() implies !same_kind(#[trigger] front[i], #[trigger] front[j]) by {
            assert(front[i] == gs[i] && front[j] == gs[j]);
        }
        lemma_last_count_single(front, wickets, fallback);
        assert forall|i: int| 0 <= i < gs.len() && #[trigger] count_set(gs[i], wickets) is Some
            implies Some(last_count(gs, wickets, fallback)) == count_set(gs[i], wickets) by {
            if i < k {
                assert(front[i] == gs[i]);
                if count_set(gs[k], wickets) is Some {
                    assert(same_kind(gs[i], gs[k]));
                    assert(!same_kind(gs[i], gs[k]));
                }
            }
        }
        if forall|i: int| 0 <= i < gs.len() ==> #[trigger] count_set(gs[i], wickets) is None {
            assert forall|i: int| 0 <= i < front.len() implies #[trigger] count_set(front[i], wickets) is None by {
                assert(front[i] == gs[i]);
            }
            assert(count_set(gs[k], wickets) is None);
        }
    }
}

proof fn lemma_same_last_count(gs1: Seq<FlagGroup>, gs2: Seq<FlagGroup>, wickets: bool, fallback: u8)
    requires
        each_flag_once(gs1),
        each_flag_once(gs2),
        forall|g: FlagGroup| #![trigger gs1.contains(g)] #![trigger gs2.contains(g)] gs1.contains(g) <==> gs2.contains(g),
    ensures
        last_count(gs1, wickets, fallback) == last_count(gs2, wickets, fallback),
{
    lemma_last_count_single(gs1, wickets, fallback);
    lemma_last_count_single(gs2, wickets, fallback);
    if exists|i: int| 0 <= i < gs1.len() && #[trigger] count_set(gs1[i], wickets) is Some {
        let i = choose|i: int| 0 <= i < gs1.len() && #[trigger] count_set(gs1[i], wickets) is Some;
        assert(gs1.contains(gs1[i]));
        let j = choose|j: int| 0 <= j < gs2.len() && gs2[j] == gs1[i];
        assert(count_set(gs2[j], wickets) is Some);
    } else if exists|j: int| 0 <= j < gs2.len() && #[trigger] count_set(gs2[j], wickets) is Some {
        let j = choose|j: int| 0 <= j < gs2.len() && #[trigger] count_set(gs2[j], wickets) is Some;
        assert(gs2.contains(gs2[j]));
        let i = choose|i: int| 0 <= i < gs1.len() && gs1[i] == gs2[j];
        assert(count_set(gs1[i], wickets) is Some);
    }
}

/// The flag groups may be written in any order, as long as no flag is
/// given twice and each number is written as a `u8` (in any spelling):
/// the same groups read as the same options.
pub proof fn lemma_flag_order_irrelevant(
    pre: Seq<Seq<char>>,
    gs1: Seq<FlagGroup>,
    gs2: Seq<FlagGroup>,
    acc: HcOptions,
)
    requires
        pre.len() >= 1,
        forall|i: int| 0 <= i < gs1.len() ==> written_as_u8(#[trigger] gs1[i]),
        forall|i: int| 0 <= i < gs2.len() ==> written_as_u8(#[trigger] gs2[i]),
        each_flag_once(gs1),
        each_flag_once(gs2),
        forall|g: FlagGroup| #![trigger gs1.contains(g)] #![trigger gs2.contains(g)] gs1.contains(g) <==> gs2.contains(g),
    ensures
        scan_options(pre + flag_tokens(gs1), (pre.len() - 1) as nat, acc).0
            == scan_options(pre + flag_tokens(gs2), (pre.len() - 1) as nat, acc).0,
{
    lemma_scan_flag_groups(pre, gs1, acc);
    lemma_scan_flag_groups(pre, gs2, acc);
    lemma_same_last_count(gs1, gs2, true, acc.wickets);
    lemma_same_last_count(gs1, gs2, false, acc.overs);
    assert(gs1.contains(FlagGroup::Post) == gs2.contains(FlagGroup::Post));
}

} // verus!

verus! {

/// A token that is none of the flags.
pub open spec fn unknown_token(t: Seq<char>) -> bool {
    t != "--post"@ && t != "--wickets"@ && t != "--overs"@
}

/// What scanning reads depends only on the tokens after the cursor: two
/// argument lists that end in the same tokens, scanned from the same
/// distance before those tokens, give the same result.
proof fn lemma_scan_depends_on_rest(
    p1: Seq<Seq<char>>,
    p2: Seq<Seq<char>>,
    rest: Seq<Seq<char>>,
    j: nat,
    acc: HcOptions,
)
    requires
        p1.len() >= 1,
        p2.len() >= 1,
        j <= rest.len(),
    ensures
        scan_options(p1 + rest, (p1.len() - 1 + j) as nat, acc).0 == scan_options(p2 + rest, (p2.len() - 1 + j) as nat, acc).0,
    decreases rest.len() - j,
{
    let t1 = p1 + rest;
    let t2 = p2 + rest;
    if j < rest.len() {
        let o1 = p1.len() + j;
        let o2 = p2.len() + j;
        assert(t1[o1 as int] == rest[j as int]);
        assert(t2[o2 as int] == rest[j as int]);
        if j + 1 < rest.len() {
            assert(t1[o1 + 1int] == rest[j + 1int]);
            assert(t2[o2 + 1int] == rest[j + 1int]);
            lemma_scan_depends_on_rest(p1, p2, rest, j + 2, if rest[j as int] == "--wickets"@ {
                match parse_unsigned(rest[j + 1int], 255) {
                    Ok(n) => if in_flag_range(n) { HcOptions { wickets: n as u8, ..acc } } else { acc },
                    Err(_) => acc,
                }
            } else {
                match parse_unsigned(rest[j + 1int], 255) {
                    Ok(n) => if in_flag_range(n) { HcOptions { overs: n as u8, ..acc } } else { acc },
                    Err(_) => acc,
                }
            });
        }
        lemma_scan_depends_on_rest(p1, p2, rest, j + 1, HcOptions { post: true, ..acc });
        lemma_scan_depends_on_rest(p1, p2, rest, j + 1, acc);
    }
}

/// Tokens that are not flags are skipped: an unknown token after the
/// cursor changes nothing in what is read, wherever it stands among the
/// arguments that follow.
pub proof fn lemma_unknown_token_skipped(pre: Seq<Seq<char>>, t: Seq<char>, rest: Seq<Seq<char>>, acc: HcOptions)
    requires
        pre.len() >= 1,
        unknown_token(t),
    ensures
        scan_options(pre + seq![t] + rest, (pre.len() - 1) as nat, acc).0
            == scan_options(pre + rest, (pre.len() - 1) as nat, acc).0,
{
    let p1 = pre + seq![t];
    assert(pre + seq![t] + rest =~= p1 + rest);
    assert((p1 + rest)[pre.len() as int] == t);
    lemma_scan_depends_on_rest(p1, pre, rest, 0, acc);
}

} // verus!
