//! The bot's custom emojis, by name.
use vstd::prelude::*;
use crate::text::{
    byte_count, byte_len, byte_range, byte_slice, decimal, lemma_ascii_byte_slice, lemma_decimal_digits, lemma_decimal_len,
    lemma_decimal_parses_back, on_boundary, parse_u64, parse_unsigned, push_decimal, str_eq, ten_pow,
};

verus! {

/// An emoji as a guild lists it: its name and id.
#[derive(Debug)]
pub struct GuildEmoji {
    pub name: String,
    pub id: u64,
}

/// The emojis the bot knows, as (name, tag) pairs in the order they were
/// recorded; a later pair for a name replaces the earlier ones.
#[derive(Debug)]
pub struct EmojiBook {
    entries: Vec<(String, String)>,
}

/// The tag of the last pair named `name`, if any.
pub open spec fn latest(v: Seq<(Seq<char>, Seq<char>)>, name: Seq<char>) -> Option<Seq<char>>
    decreases v.len(),
{
    if v.len() == 0 {
        None
    } else if v.last().0 == name {
        Some(v.last().1)
    } else {
        latest(v.drop_last(), name)
    }
}

/// The number of names among the pairs: a pair counts where no earlier
/// pair has its name.
pub open spec fn distinct_names(v: Seq<(Seq<char>, Seq<char>)>) -> nat
    decreases v.len(),
{
    if v.len() == 0 {
        0
    } else {
        distinct_names(v.drop_last()) + if latest(v.drop_last(), v.last().0) is None { 1nat } else { 0nat }
    }
}

/// No tag is recorded for `name` exactly when no pair has that name.
proof fn lemma_latest_none(v: Seq<(Seq<char>, Seq<char>)>, name: Seq<char>)
    ensures
        latest(v, name) is None <==> forall|k: int| 0 <= k < v.len() ==> #[trigger] v[k].0 != name,
    decreases v.len(),
{
    if v.len() > 0 {
        let front = v.drop_last();
        lemma_latest_none(front, name);
        if latest(v, name) is None {
            assert forall|k: int| 0 <= k < v.len() implies #[trigger] v[k].0 != name by {
                if k < v.len() - 1 {
                    assert(front[k] == v[k]);
                }
            }
        } else if forall|k: int| 0 <= k < v.len() ==> #[trigger] v[k].0 != name {
            assert(v.last() == v[v.len() - 1]);
            assert forall|k: int| 0 <= k < front.len() implies #[trigger] front[k].0 != name by {
                assert(front[k] == v[k]);
            }
        }
    }
}

/// The message form of a custom emoji: `<:name:id>`.
pub open spec fn tag_text(name: Seq<char>, id: nat) -> Seq<char> {
    "<:"@ + name + ":"@ + decimal(id) + ">"@
}

/// The recorded pairs of the given guild emojis.
pub open spec fn tagged(list: Seq<GuildEmoji>) -> Seq<(Seq<char>, Seq<char>)> {
    Seq::new(list.len(), |i: int| (list[i].name@, tag_text(list[i].name@, list[i].id as nat)))
}

impl EmojiBook {
    /// The recorded pairs.
    pub closed spec fn view(&self) -> Seq<(Seq<char>, Seq<char>)> {
        Seq::new(self.entries.len() as nat, |i: int| (self.entries[i].0@, self.entries[i].1@))
    }

    /// A book without emojis.
    pub fn new() -> (r: EmojiBook)
        ensures
            r.view() == Seq::<(Seq<char>, Seq<char>)>::empty(),
    {
        let r = EmojiBook { entries: Vec::new() };
        assert(r.view() =~= Seq::<(Seq<char>, Seq<char>)>::empty());
        r
    }

    /// Records the tag of emoji `name`, in place of any earlier one.
    pub fn insert(&mut self, name: String, tag: String)
        ensures
            final(self).view() == old(self).view().push((name@, tag@)),
    {
        let ghost v = self.view();
        let ghost pair = (name@, tag@);
        self.entries.push((name, tag));
        assert(self.view() =~= v.push(pair));
    }

    /// The number of emojis with a tag: names recorded more than once
    /// count once.
    pub fn len(&self) -> (r: usize)
        ensures
            r == distinct_names(self.view()),
    {
        let ghost v = self.view();
        let mut count: usize = 0;
        let mut j: usize = 0;
        assert(v.take(0) =~= Seq::<(Seq<char>, Seq<char>)>::empty());
        while j < self.entries.len()
            invariant
                v == self.view(),
                j <= self.entries.len(),
                count == distinct_names(v.take(j as int)),
                count <= j,
            decreases self.entries.len() - j,
        {
            let mut seen = false;
            let mut k: usize = 0;
            while k < j
                invariant
                    v == self.view(),
                    k <= j,
                    j < self.entries.len(),
                    seen <==> exists|m: int| 0 <= m < k && #[trigger] v[m].0 == v[j as int].0,
                decreases j - k,
            {
                if str_eq(self.entries[k].0.as_str(), self.entries[j].0.as_str()) {
                    seen = true;
                }
                proof {
                    assert(v[k as int].0 == self.entries[k as int].0@);
                    assert(v[j as int].0 == self.entries[j as int].0@);
                    if seen {
                        if !(exists|m: int| 0 <= m < k && #[trigger] v[m].0 == v[j as int].0) {
                            assert(v[k as int].0 == v[j as int].0);
                        }
                    }
                }
                k = k + 1;
            }
            proof {
                let t = v.take(j + 1);
                let before = v.take(j as int);
                assert(t.drop_last() =~= before);
                assert(t.last() == v[j as int]);
                lemma_latest_none(before, v[j as int].0);
                if seen {
                    let m = choose|m: int| 0 <= m < j && #[trigger] v[m].0 == v[j as int].0;
                    assert(before[m] == v[m]);
                } else {
                    assert forall|m: int| 0 <= m < before.len() implies #[trigger] before[m].0 != v[j as int].0 by {
                        assert(before[m] == v[m]);
                    }
                }
            }
            if !seen {
                count = count + 1;
            }
            j = j + 1;
        }
        assert(v.take(j as int) =~= v);
        count
    }

    /// The tag of emoji `name` (`get_emoji`).
    pub fn get(&self, name: &str) -> (r: Option<String>)
        ensures
            match r {
                Some(t) => latest(self.view(), name@) == Some(t@),
                None => latest(self.view(), name@) is None,
            },
    {
        let mut i: usize = self.entries.len();
        assert(self.view().take(i as int) =~= self.view());
        while i > 0
            invariant
                i <= self.entries.len(),
                latest(self.view(), name@) == latest(self.view().take(i as int), name@),
            decreases i,
        {
            let ghost t = self.view().take(i as int);
            assert(t.drop_last() =~= self.view().take(i - 1));
            assert(t.last() == self.view()[i - 1]);
            if str_eq(self.entries[i - 1].0.as_str(), name) {
                return Some(self.entries[i - 1].1.clone());
            }
            i = i - 1;
        }
        None
    }
}

/// The message form of a custom emoji.
pub fn emoji_tag(name: &str, id: u64) -> (r: String)
    ensures
        r@ == tag_text(name@, id as nat),
{
    let mut s = "<:".to_owned();
    s.append(name);
    s.append(":");
    push_decimal(&mut s, id as u128);
    s.append(">");
    s
}

/// Records the emojis of one guild, in the order the guild lists them.
pub fn record_emojis(book: &mut EmojiBook, list: &Vec<GuildEmoji>)
    ensures
        final(book).view() == old(book).view() + tagged(list@),
{
    let ghost start = book.view();
    let mut i: usize = 0;
    while i < list.len()
        invariant
            i <= list.len(),
            book.view() == start + tagged(list@).take(i as int),
        decreases list.len() - i,
    {
        let tag = emoji_tag(list[i].name.as_str(), list[i].id);
        book.insert(list[i].name.clone(), tag);
        assert(tagged(list@).take(i + 1) =~= tagged(list@).take(i as int).push(tagged(list@)[i as int]));
        assert(book.view() =~= start + tagged(list@).take(i + 1));
        i = i + 1;
    }
    assert(tagged(list@).take(list.len() as int) =~= tagged(list@));
}

/// The toss emoji of a duo match: the recorded one, or nothing.
pub fn toss_emoji_or_blank(book: &EmojiBook) -> (r: String)
    ensures
        r@ == (match latest(book.view(), "toss"@) {
            Some(t) => t,
            None => Seq::<char>::empty(),
        }),
{
    match book.get("toss") {
        Some(t) => t,
        None => String::new(),
    }
}

/// The id inside a custom emoji tag `<:enter:id>`: the bytes from the
/// ninth to the one before the last.
pub open spec fn enter_id_text(tag: Seq<char>) -> Seq<char> {
    byte_slice(tag, 8, byte_len(tag) - 1)
}

/// The tag of the `enter` emoji can be cut at bytes 8 and len - 1.
pub open spec fn enter_tag_cuttable(tag: Seq<char>) -> bool {
    &&& 9 <= byte_len(tag) <= usize::MAX
    &&& on_boundary(tag, 8)
    &&& on_boundary(tag, byte_len(tag) - 1)
}

/// What a team match needs from the emoji book: the toss emoji and the id
/// of the `enter` emoji, or the error the setup stops with.
pub open spec fn team_emojis_result(v: Seq<(Seq<char>, Seq<char>)>) -> Result<(Seq<char>, nat), Seq<char>> {
    match latest(v, "toss"@) {
        None => Err("Failed to get toss emoji"@),
        Some(toss) => match latest(v, "enter"@) {
            None => Err("Failed to get enter emoji"@),
            Some(enter) => match parse_unsigned(enter_id_text(enter), u64::MAX as nat) {
                Ok(id) => Ok((toss, id)),
                Err(k) => Err("Cannot parse enter emoji as u64: "@ + crate::text::int_error_text(k)),
            },
        },
    }
}

/// Whether the tag of the `enter` emoji, where there is one, can be cut
/// for its id (what `team_match_emojis` needs).
pub fn enter_tag_ready(book: &EmojiBook) -> (r: bool)
    ensures
        r == (latest(book.view(), "enter"@) matches Some(t) ==> enter_tag_cuttable(t)),
{
    match book.get("enter") {
        None => true,
        Some(t) => {
            let n = byte_count(t.as_str());
            n >= 9 && t.as_str().is_char_boundary(8) && t.as_str().is_char_boundary(n - 1)
        },
    }
}

/// Looks up the toss emoji and the id of the `enter` emoji for a team
/// match.
pub fn team_match_emojis(book: &EmojiBook) -> (r: Result<(String, u64), String>)
    requires
        latest(book.view(), "enter"@) matches Some(t) ==> enter_tag_cuttable(t),
    ensures
        match r {
            Ok((toss, id)) => team_emojis_result(book.view()) == Ok::<(Seq<char>, nat), Seq<char>>((toss@, id as nat)),
            Err(e) => team_emojis_result(book.view()) == Err::<(Seq<char>, nat), Seq<char>>(e@),
        },
{
    let toss = match book.get("toss") {
        Some(t) => t,
        None => {
            return Err("Failed to get toss emoji".to_owned());
        },
    };
    let em = match book.get("enter") {
        Some(t) => t,
        None => {
            return Err("Failed to get enter emoji".to_owned());
        },
    };
    let n = em.as_str().len();
    let digits = byte_range(em.as_str(), 8, n - 1);
    match parse_u64(digits.as_str()) {
        Ok(id) => Ok((toss, id)),
        Err(k) => {
            let mut s = "Cannot parse enter emoji as u64: ".to_owned();
            let m = k.message();
            s.append(m.as_str());
            Err(s)
        },
    }
}

} // verus!

verus! {

/// Looking an emoji up after recording it gives the recorded tag, and
/// other emojis keep theirs.
pub proof fn lemma_record_then_get(v: Seq<(Seq<char>, Seq<char>)>, name: Seq<char>, tag: Seq<char>, other: Seq<char>)
    ensures
        latest(v.push((name, tag)), name) == Some(tag),
        other != name ==> latest(v.push((name, tag)), other) == latest(v, other),
{
    assert(v.push((name, tag)).drop_last() =~= v);
}

} // verus!

verus! {

/// The id of a guild whose emojis the bot loads, or the message of the
/// parse error.
pub fn parse_guild_id(gid: &str) -> (r: Result<u64, String>)
    ensures
        match parse_unsigned(gid@, u64::MAX as nat) {
            Ok(v) => r == Ok::<u64, String>(v as u64),
            Err(k) => r matches Err(e) && e@ == crate::text::int_error_text(k),
        },
{
    match parse_u64(gid) {
        Ok(v) => Ok(v),
        Err(k) => Err(k.message()),
    }
}

} // verus!

verus! {

/// The tag of the `enter` emoji reads back as the emoji's id: its bytes
/// from the ninth to the one before the last are the id's digits.
pub proof fn lemma_enter_tag_reads_back(id: nat)
    requires
        id <= u64::MAX,
    ensures
        enter_tag_cuttable(tag_text("enter"@, id)),
        enter_id_text(tag_text("enter"@, id)) == decimal(id),
        parse_unsigned(enter_id_text(tag_text("enter"@, id)), u64::MAX as nat) == Ok::<nat, crate::text::IntErrorKind>(id),
{
    reveal_strlit("<:");
    reveal_strlit("enter");
    reveal_strlit(":");
    reveal_strlit(">");
    let d = decimal(id);
    let tag = tag_text("enter"@, id);
    lemma_decimal_digits(id);
    assert(ten_pow(20) == 100000000000000000000) by {
        reveal_with_fuel(ten_pow, 21);
    }
    lemma_decimal_len(id, 20);
    assert(tag.len() == 9 + d.len());
    assert forall|i: int| 0 <= i < tag.len() implies '\0' <= #[trigger] tag[i] <= '\u{7f}' by {
        if 8 <= i < 8 + d.len() {
            assert(tag[i] == d[i - 8]);
            assert(crate::text::is_digit(d[i - 8]));
        }
    }
    lemma_ascii_byte_slice(tag, 8, tag.len() - 1);
    assert(tag.subrange(8, tag.len() - 1) =~= d);
    lemma_decimal_parses_back(id, u64::MAX as nat);
}

/// A team match finds the toss emoji and, from the tag of the `enter`
/// emoji, the id it was recorded with.
pub proof fn lemma_team_emojis_from_tags(v: Seq<(Seq<char>, Seq<char>)>, toss: Seq<char>, id: nat)
    requires
        latest(v, "toss"@) == Some(toss),
        latest(v, "enter"@) == Some(tag_text("enter"@, id)),
        id <= u64::MAX,
    ensures
        team_emojis_result(v) == Ok::<(Seq<char>, nat), Seq<char>>((toss, id)),
{
    lemma_enter_tag_reads_back(id);
}

} // verus!
