//! The help text of the commands: where it is read from, how a command is
//! looked up, and what the help listings say.
use vstd::prelude::*;
use crate::text::{byte_count, byte_len, byte_prefix, byte_slice, contains_str, decimal, ends_with, has_infix, has_prefix, has_suffix, on_boundary, push_decimal, starts_with, str_eq};

verus! {

/// The help of one command: its name and the lines of its doc comment
/// (syntax, description, aliases).
#[derive(Debug)]
pub struct CommandEntry {
    pub name: String,
    pub info: Vec<String>,
}

/// The help of every command, one entry per name, in the order in which
/// the commands were registered.
#[derive(Debug)]
pub struct CommandBook {
    entries: Vec<CommandEntry>,
}

/// The view of a book: each entry's name and doc lines.
pub type BookView = Seq<(Seq<char>, Seq<Seq<char>>)>;

/// No two entries share a name.
pub open spec fn names_unique(v: BookView) -> bool {
    forall|i: int, j: int| 0 <= i < v.len() && 0 <= j < v.len() && i != j ==> (#[trigger] v[i]).0 != (#[trigger] v[j]).0
}

/// Some entry is named `name`.
pub open spec fn has_name(v: BookView, name: Seq<char>) -> bool {
    exists|i: int| #[trigger] named_at(v, name, i)
}

/// Entry `i` is the one named `name`.
pub open spec fn named_at(v: BookView, name: Seq<char>, i: int) -> bool {
    0 <= i < v.len() && v[i].0 == name
}

/// The doc lines of the entry named `name`, if there is one.
pub open spec fn info_of(v: BookView, name: Seq<char>) -> Option<Seq<Seq<char>>> {
    if has_name(v, name) {
        Some(v[choose|i: int| named_at(v, name, i)].1)
    } else {
        None
    }
}

impl CommandEntry {
    pub open spec fn view_pair(&self) -> (Seq<char>, Seq<Seq<char>>) {
        (self.name@, self.info.deep_view())
    }
}

impl CommandBook {
    #[verifier::type_invariant]
    spec fn unique_names(&self) -> bool {
        names_unique(self.view())
    }

    /// The entries of the book.
    pub closed spec fn view(&self) -> BookView {
        Seq::new(self.entries.len() as nat, |i: int| self.entries[i].view_pair())
    }

    /// A book without entries.
    pub fn new() -> (r: CommandBook)
        ensures
            r.view() == Seq::<(Seq<char>, Seq<Seq<char>>)>::empty(),
            names_unique(r.view()),
    {
        let r = CommandBook { entries: Vec::new() };
        assert(r.view() =~= Seq::<(Seq<char>, Seq<Seq<char>>)>::empty());
        r
    }

    /// The number of entries.
    pub fn len(&self) -> (r: usize)
        ensures
            r == self.view().len(),
            names_unique(self.view()),
    {
        proof {
            use_type_invariant(self);
        }
        self.entries.len()
    }

    /// The position of the entry named `name`.
    fn position(&self, name: &str) -> (r: Option<usize>)
        ensures
            match r {
                Some(i) => named_at(self.view(), name@, i as int),
                None => !has_name(self.view(), name@),
            },
    {
        let mut i: usize = 0;
        while i < self.entries.len()
            invariant
                i <= self.entries.len(),
                forall|j: int| 0 <= j < i ==> (#[trigger] self.view()[j]).0 != name@,
            decreases self.entries.len() - i,
        {
            if str_eq(self.entries[i].name.as_str(), name) {
                return Some(i);
            }
            i = i + 1;
        }
        None
    }

    /// Records the doc lines of command `name`, in place of any it had.
    pub fn insert(&mut self, name: String, info: Vec<String>)
        ensures
            names_unique(final(self).view()),
            has_name(old(self).view(), name@) ==> exists|i: int| named_at(old(self).view(), name@, i)
                && final(self).view() == old(self).view().update(i, (name@, info.deep_view())),
            !has_name(old(self).view(), name@) ==> final(self).view() == old(self).view().push((name@, info.deep_view())),
    {
        proof {
            use_type_invariant(&*self);
        }
        let ghost v = self.view();
        let ghost pair = (name@, info.deep_view());
        match self.position(name.as_str()) {
            Some(i) => {
                let mut entries: Vec<CommandEntry> = Vec::new();
                std::mem::swap(&mut entries, &mut self.entries);
                proof {
                    assert(entries@ == old(self).entries@);
                }
                entries.set(i, CommandEntry { name, info });
                proof {
                    let nv = Seq::new(entries.len() as nat, |k: int| entries[k].view_pair());
                    assert(nv =~= v.update(i as int, pair));
                    assert forall|a: int, b: int| 0 <= a < nv.len() && 0 <= b < nv.len() && a != b implies (#[trigger] nv[a]).0 != (#[trigger] nv[b]).0 by {
                        assert(v[a].0 != v[b].0);
                    }
                }
                self.entries = entries;
                assert(self.view() =~= v.update(i as int, pair));
            },
            None => {
                let mut entries: Vec<CommandEntry> = Vec::new();
                std::mem::swap(&mut entries, &mut self.entries);
                proof {
                    assert(entries@ == old(self).entries@);
                }
                entries.push(CommandEntry { name, info });
                proof {
                    let nv = Seq::new(entries.len() as nat, |k: int| entries[k].view_pair());
                    assert(nv =~= v.push(pair));
                    assert forall|a: int, b: int| 0 <= a < nv.len() && 0 <= b < nv.len() && a != b implies (#[trigger] nv[a]).0 != (#[trigger] nv[b]).0 by {
                        if a < v.len() && b < v.len() {
                            assert(v[a].0 != v[b].0);
                        } else if a == v.len() {
                            assert(!named_at(v, name@, b));
                        } else {
                            assert(!named_at(v, name@, a));
                        }
                    }
                }
                self.entries = entries;
                assert(self.view() =~= v.push(pair));
            },
        }
    }

    /// The doc lines of the command named `name`.
    pub fn get(&self, name: &str) -> (r: Option<&Vec<String>>)
        ensures
            match r {
                Some(info) => info_of(self.view(), name@) == Some(info.deep_view()),
                None => info_of(self.view(), name@) is None,
            },
    {
        proof {
            use_type_invariant(self);
        }
        match self.position(name) {
            Some(i) => {
                proof {
                    let k = choose|k: int| named_at(self.view(), name@, k);
                    assert(k == i);
                }
                Some(&self.entries[i].info)
            },
            None => None,
        }
    }

    /// The entry at position `i`.
    pub fn entry(&self, i: usize) -> (r: &CommandEntry)
        requires
            i < self.view().len(),
        ensures
            r.view_pair() == self.view()[i as int],
    {
        &self.entries[i]
    }
}

/// Every entry has at least `n` doc lines.
pub open spec fn all_have_lines(v: BookView, n: nat) -> bool {
    forall|i: int| 0 <= i < v.len() ==> (#[trigger] v[i]).1.len() >= n
}

/// The syntax line of a command, or a pointer to its help when the book
/// does not know it.
pub open spec fn syntax_of(v: BookView, cmd: Seq<char>) -> Seq<char> {
    match info_of(v, cmd) {
        Some(info) => info[0],
        None => "`e.help "@ + cmd + "`"@,
    }
}

/// The syntax line of command `cmd`: the first doc line of its entry, or
/// ``"`e.help <cmd>`"`` when the book has none.
pub fn get_cmd_syntax(book: &CommandBook, cmd: &str) -> (r: String)
    requires
        info_of(book.view(), cmd@) matches Some(info) ==> info.len() > 0,
    ensures
        r@ == syntax_of(book.view(), cmd@),
{
    match book.get(cmd) {
        Some(info) => info[0].clone(),
        None => {
            let mut s = "`e.help ".to_owned();
            s.append(cmd);
            s.append("`");
            s
        },
    }
}

/// The entry at `i` is what `help <cmd>` shows: the command named `cmd`,
/// or, when there is none, the first entry whose alias line holds `cmd`.
pub open spec fn help_match_at(v: BookView, cmd: Seq<char>, i: int) -> bool {
    ||| named_at(v, cmd, i)
    ||| {
        &&& !has_name(v, cmd)
        &&& 0 <= i < v.len()
        &&& has_infix(v[i].1[2], cmd)
        &&& forall|j: int| 0 <= j < i ==> !has_infix((#[trigger] v[j]).1[2], cmd)
    }
}

/// No entry is what `help <cmd>` could show.
pub open spec fn help_misses(v: BookView, cmd: Seq<char>) -> bool {
    !has_name(v, cmd) && forall|j: int| 0 <= j < v.len() ==> !has_infix((#[trigger] v[j]).1[2], cmd)
}

/// Whether the help of `cmd`, where the book has one, has a syntax line
/// (what `get_cmd_syntax` needs).
pub fn syntax_available(book: &CommandBook, cmd: &str) -> (r: bool)
    ensures
        r == (info_of(book.view(), cmd@) matches Some(info) ==> info.len() > 0),
{
    match book.get(cmd) {
        Some(info) => info.len() > 0,
        None => true,
    }
}

/// Whether `help <cmd>` can look the command up (what `find_command`
/// needs): the book knows `cmd`, or every help has its three lines.
pub fn lookup_ready(book: &CommandBook, cmd: &str) -> (r: bool)
    ensures
        r == (!has_name(book.view(), cmd@) ==> all_have_lines(book.view(), 3)),
{
    if book.get(cmd).is_some() {
        return true;
    }
    assert(!has_name(book.view(), cmd@));
    let mut i: usize = 0;
    while i < book.len()
        invariant
            i <= book.view().len(),
            !has_name(book.view(), cmd@),
            forall|j: int| 0 <= j < i ==> (#[trigger] book.view()[j]).1.len() >= 3,
        decreases book.view().len() - i,
    {
        let e = book.entry(i);
        if e.info.len() < 3 {
            assert(e.view_pair() == book.view()[i as int]);
            assert(book.view()[i as int].1.len() == e.info@.len());
            assert(!all_have_lines(book.view(), 3));
            return false;
        }
        i = i + 1;
    }
    true
}

/// Whether every command in `names` has a help with a syntax line (what
/// `help_listing` needs).
pub fn listing_ready(book: &CommandBook, names: &Vec<String>) -> (r: bool)
    ensures
        r == forall|k: int| 0 <= k < names.len() ==> (info_of(book.view(), (#[trigger] names[k])@) matches Some(info) && info.len() > 0),
{
    let mut k: usize = 0;
    while k < names.len()
        invariant
            k <= names.len(),
            forall|j: int| 0 <= j < k ==> (info_of(book.view(), (#[trigger] names[j])@) matches Some(info) && info.len() > 0),
        decreases names.len() - k,
    {
        match book.get(names[k].as_str()) {
            Some(info) => {
                if info.len() == 0 {
                    return false;
                }
            },
            None => {
                return false;
            },
        }
        k = k + 1;
    }
    true
}

/// Finds the command that `help <cmd>` describes: the one named `cmd`, or
/// else the first whose alias line contains `cmd`.
pub fn find_command<'a>(book: &'a CommandBook, cmd: &str) -> (r: Option<&'a CommandEntry>)
    requires
        !has_name(book.view(), cmd@) ==> all_have_lines(book.view(), 3),
    ensures
        match r {
            Some(e) => exists|i: int| help_match_at(book.view(), cmd@, i) && e.view_pair() == book.view()[i],
            None => help_misses(book.view(), cmd@),
        },
{
    match book.position(cmd) {
        Some(i) => {
            return Some(book.entry(i));
        },
        None => {},
    }
    let mut i: usize = 0;
    while i < book.len()
        invariant
            i <= book.view().len(),
            !has_name(book.view(), cmd@),
            all_have_lines(book.view(), 3),
            forall|j: int| 0 <= j < i ==> !has_infix((#[trigger] book.view()[j]).1[2], cmd@),
        decreases book.view().len() - i,
    {
        let e = book.entry(i);
        assert(e.info.deep_view().len() >= 3);
        if contains_str(e.info[2].as_str(), cmd) {
            assert(help_match_at(book.view(), cmd@, i as int));
            return Some(e);
        }
        i = i + 1;
    }
    None
}

/// The lines of a help listing: `**<name>**  |  <syntax>` for each command.
pub open spec fn listing(v: BookView, names: Seq<Seq<char>>) -> Seq<char>
    decreases names.len(),
{
    if names.len() == 0 {
        Seq::empty()
    } else {
        listing(v, names.drop_last()) + "**"@ + names.last() + "**  |  "@ + info_of(v, names.last()).unwrap()[0] + "\n"@
    }
}

/// The help listing of the commands `names`, each of which the book holds.
pub fn help_listing(book: &CommandBook, names: &Vec<String>) -> (r: String)
    requires
        forall|k: int| 0 <= k < names.len() ==> (info_of(book.view(), (#[trigger] names[k])@) matches Some(info) && info.len() > 0),
    ensures
        r@ == listing(book.view(), names.deep_view()),
{
    let mut txt = String::new();
    let mut k: usize = 0;
    while k < names.len()
        invariant
            k <= names.len(),
            forall|k: int| 0 <= k < names.len() ==> (info_of(book.view(), (#[trigger] names[k])@) matches Some(info) && info.len() > 0),
            txt@ == listing(book.view(), names.deep_view().take(k as int)),
        decreases names.len() - k,
    {
        let c = &names[k];
        let info = book.get(c.as_str()).unwrap();
        assert(info_of(book.view(), names[k as int]@) matches Some(i) && i.len() > 0);
        txt.append("**");
        txt.append(c.as_str());
        txt.append("**  |  ");
        txt.append(info[0].as_str());
        txt.append("\n");
        proof {
            let t = names.deep_view().take(k + 1);
            assert(t.drop_last() =~= names.deep_view().take(k as int));
            assert(t.last() == names[k as int]@);
        }
        k = k + 1;
    }
    assert(names.deep_view().take(names.len() as int) =~= names.deep_view());
    txt
}

/// The reply when `help <cmd>` finds no command.
pub fn help_not_found(cmd: &str) -> (r: String)
    ensures
        r@ == "Command with name `"@ + cmd@ + "` not found. Check for typos or checkout full help - `e.help`."@,
{
    let mut s = "Command with name `".to_owned();
    s.append(cmd);
    s.append("` not found. Check for typos or checkout full help - `e.help`.");
    s
}

/// The title of the help of one command.
pub fn help_title(cmd: &str) -> (r: String)
    ensures
        r@ == "Command - "@ + cmd@,
{
    let mut s = "Command - ".to_owned();
    s.append(cmd);
    s
}

/// The footer of a help message: who asked for it.
pub fn requested_by(name: &str) -> (r: String)
    ensures
        r@ == "Requested by "@ + name@,
{
    let mut s = "Requested by ".to_owned();
    s.append(name);
    s
}

/// The message above the full help, mentioning the user who asked.
pub fn help_greeting(user_id: u64) -> (r: String)
    ensures
        r@ == "Here we have the help <@"@ + decimal(user_id as nat) + ">."@,
{
    let mut s = "Here we have the help <@".to_owned();
    push_decimal(&mut s, user_id as u128);
    s.append(">.");
    s
}

/// The links field of the full help: the invite of the bot and the main
/// server.
pub fn help_links(invite: &str, server: &str) -> (r: String)
    ensures
        r@ == "[Add to Server]("@ + invite@ + ")\n[Main Server]("@ + server@ + ")"@,
{
    let mut s = "[Add to Server](".to_owned();
    s.append(invite);
    s.append(")\n[Main Server](");
    s.append(server);
    s.append(")");
    s
}

/// The address of a user's avatar image.
pub fn avatar_url(user_id: u64, avatar: &str) -> (r: String)
    ensures
        r@ == "https://cdn.discordapp.com/avatars/"@ + decimal(user_id as nat) + "/"@ + avatar@ + ".webp"@,
{
    let mut s = "https://cdn.discordapp.com/avatars/".to_owned();
    push_decimal(&mut s, user_id as u128);
    s.append("/");
    s.append(avatar);
    s.append(".webp");
    s
}

/// The doc lines that a command file contributes: of the lines as read
/// (each with its line terminator), those that start with `///`, without
/// the `///` and without their last character.
pub open spec fn doc_lines(lines: Seq<Seq<char>>) -> Seq<Seq<char>>
    decreases lines.len(),
{
    if lines.len() == 0 {
        Seq::empty()
    } else {
        let rest = doc_lines(lines.drop_last());
        let l = lines.last();
        if has_prefix(l, "///"@) {
            rest.push(l.subrange(3, l.len() - 1))
        } else {
            rest
        }
    }
}

/// A doc line has a character after `///` (its line terminator).
pub open spec fn doc_lines_terminated(lines: Seq<Seq<char>>) -> bool {
    forall|k: int| 0 <= k < lines.len() && has_prefix(#[trigger] lines[k], "///"@) ==> lines[k].len() >= 4
}

/// Whether every doc line among `lines` has its terminator (what
/// `command_doc` needs).
pub fn doc_lines_ok(lines: &Vec<String>) -> (r: bool)
    ensures
        r == doc_lines_terminated(lines.deep_view()),
{
    let mut k: usize = 0;
    while k < lines.len()
        invariant
            k <= lines.len(),
            forall|j: int| 0 <= j < k && has_prefix(#[trigger] lines.deep_view()[j], "///"@) ==> lines.deep_view()[j].len() >= 4,
        decreases lines.len() - k,
    {
        assert(lines.deep_view()[k as int] == lines[k as int]@);
        if starts_with(lines[k].as_str(), "///") && lines[k].as_str().unicode_len() < 4 {
            return false;
        }
        k = k + 1;
    }
    true
}

/// Collects the doc lines of a command file.
pub fn command_doc(lines: &Vec<String>) -> (r: Vec<String>)
    requires
        doc_lines_terminated(lines.deep_view()),
    ensures
        r.deep_view() == doc_lines(lines.deep_view()),
{
    proof {
        reveal_strlit("///");
    }
    let mut out: Vec<String> = Vec::new();
    let mut k: usize = 0;
    while k < lines.len()
        invariant
            k <= lines.len(),
            doc_lines_terminated(lines.deep_view()),
            out.deep_view() == doc_lines(lines.deep_view().take(k as int)),
        decreases lines.len() - k,
    {
        let l = lines[k].as_str();
        proof {
            let t = lines.deep_view().take(k + 1);
            assert(t.drop_last() =~= lines.deep_view().take(k as int));
            assert(t.last() == lines[k as int]@);
        }
        if starts_with(l, "///") {
            let n = l.unicode_len();
            let body = l.substring_char(3, n - 1);
            let ghost prev = out.deep_view();
            out.push(body.to_owned());
            assert(out.deep_view() =~= prev.push(lines[k as int]@.subrange(3, lines[k as int]@.len() - 1)));
        }
        k = k + 1;
    }
    assert(lines.deep_view().take(lines.len() as int) =~= lines.deep_view());
    out
}

/// The command a file describes: its name without the `.rs` extension,
/// or none for a module file.
pub open spec fn command_key(file_name: Seq<char>) -> Option<Seq<char>> {
    if has_suffix(file_name, "mod.rs"@) {
        None
    } else {
        Some(byte_slice(file_name, 0, byte_len(file_name) - 3))
    }
}

/// A file name from which the last three bytes can be cut.
pub open spec fn cuttable(file_name: Seq<char>) -> bool {
    has_suffix(file_name, "mod.rs"@) || (byte_len(file_name) >= 3 && on_boundary(file_name, byte_len(file_name) - 3))
}

/// Whether a file is a module file, which holds no command (its name
/// ends with `mod.rs`).
pub fn is_module_file(file_name: &str) -> (r: bool)
    ensures
        r == (command_key(file_name@) is None),
{
    ends_with(file_name, "mod.rs")
}

/// Whether a command file's name can be cut into its key (what
/// `register_command_file` needs of it).
pub fn file_name_cuttable(file_name: &str) -> (r: bool)
    ensures
        r == cuttable(file_name@),
        byte_len(file_name@) <= usize::MAX,
{
    let n = byte_count(file_name);
    ends_with(file_name, "mod.rs") || (n >= 3 && file_name.is_char_boundary(n - 3))
}

/// Adds the help of one command file to the book: module files are
/// skipped, any other file gives the entry named after it.
pub fn register_command_file(book: &mut CommandBook, file_name: &str, lines: &Vec<String>)
    requires
        cuttable(file_name@),
        byte_len(file_name@) <= usize::MAX,
        doc_lines_terminated(lines.deep_view()),
    ensures
        match command_key(file_name@) {
            None => final(book).view() == old(book).view(),
            Some(key) => {
                &&& has_name(old(book).view(), key) ==> exists|i: int| named_at(old(book).view(), key, i)
                    && final(book).view() == old(book).view().update(i, (key, doc_lines(lines.deep_view())))
                &&& !has_name(old(book).view(), key) ==> final(book).view() == old(book).view().push((key, doc_lines(lines.deep_view())))
            },
        },
{
    if ends_with(file_name, "mod.rs") {
        return;
    }
    let key = byte_prefix(file_name, file_name.len() - 3);
    let info = command_doc(lines);
    book.insert(key, info);
}

} // verus!

verus! {

/// After the help of command `name` is recorded, looking the command up
/// gives exactly that help, and every other command's help is unchanged.
pub proof fn lemma_insert_then_lookup(v: BookView, name: Seq<char>, info: Seq<Seq<char>>, other: Seq<char>)
    requires
        names_unique(v),
    ensures
        ({
            let w = if has_name(v, name) {
                v.update(choose|i: int| named_at(v, name, i), (name, info))
            } else {
                v.push((name, info))
            };
            &&& info_of(w, name) == Some(info)
            &&& other != name ==> info_of(w, other) == info_of(v, other)
        }),
{
    if has_name(v, name) {
        let i = choose|i: int| named_at(v, name, i);
        let w = v.update(i, (name, info));
        assert(named_at(w, name, i));
        let k = choose|k: int| named_at(w, name, k);
        if k != i {
            assert(v[k].0 == name);
            assert(named_at(v, name, k));
        }
        assert(k == i);
        assert(w[i] == (name, info));
        if other != name {
            if has_name(v, other) {
                let a = choose|a: int| named_at(v, other, a);
                assert(a != i);
                assert(w[a] == v[a]);
                assert(named_at(w, other, a));
                let b = choose|b: int| named_at(w, other, b);
                if a != b {
                    assert(v[b].0 == other);
                }
            }
            if has_name(w, other) {
                let b = choose|b: int| named_at(w, other, b);
                assert(named_at(v, other, b));
            }
        }
    } else {
        let w = v.push((name, info));
        assert(named_at(w, name, v.len() as int));
        let k = choose|k: int| named_at(w, name, k);
        if k != v.len() {
            assert(v[k].0 == name);
            assert(named_at(v, name, k));
        }
        assert(k == v.len());
        if other != name {
            if has_name(v, other) {
                let a = choose|a: int| named_at(v, other, a);
                assert(w[a] == v[a]);
                assert(named_at(w, other, a));
                let b = choose|b: int| named_at(w, other, b);
                if a != b {
                    assert(b < v.len());
                    assert(v[b].0 == other);
                }
            }
            if has_name(w, other) {
                let b = choose|b: int| named_at(w, other, b);
                assert(named_at(v, other, b));
            }
        }
    }
}

} // verus!
