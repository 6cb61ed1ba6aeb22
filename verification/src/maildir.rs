//! Mailbox formats, and Maildir.
//!
//! Maildir keeps one file per message under `user/mailbox/new` (messages
//! not yet seen) or `user/mailbox/cur`; a file is named
//! `<unique-id>:2,<flags>` where each flag is one letter: D (draft),
//! F (flagged), R (replied), S (seen), T (trashed).

use vstd::prelude::*;
use vstd::string::*;

use crate::paths::{
    path_components, path_file_name, path_parent, path_strip_prefix, std_components,
    std_file_name, std_parent, std_strip_prefix,
};
use crate::text::{
    chars_of, find_text, first_occurrence, lemma_first_occurrence, occurs_at, push_char, same_text,
    string_of, views,
};
use crate::types::{FlagModel, MessageFlag};

verus! {

/// Information parsed from a mailbox message file.
#[derive(Debug, Clone, PartialEq, Eq)]
pub struct ParsedMessage {
    /// Unique identifier for this message.
    pub unique_id: String,
    /// Flags associated with the message.
    pub flags: Vec<MessageFlag>,
    /// Whether this is a new (unseen) message.
    pub is_new: bool,
    /// Username extracted from the path.
    pub username: String,
    /// Mailbox name extracted from the path.
    pub mailbox: String,
}

/// A parsed message with its texts and flags taken by their views.
pub struct ParsedView {
    pub unique_id: Seq<char>,
    pub flags: Seq<FlagModel>,
    pub is_new: bool,
    pub username: Seq<char>,
    pub mailbox: Seq<char>,
}

/// The views of a sequence of flags.
pub open spec fn flag_views(fs: Seq<MessageFlag>) -> Seq<FlagModel> {
    fs.map_values(|f: MessageFlag| f@)
}

impl View for ParsedMessage {
    type V = ParsedView;

    open spec fn view(&self) -> ParsedView {
        ParsedView {
            unique_id: self.unique_id@,
            flags: flag_views(self.flags@),
            is_new: self.is_new,
            username: self.username@,
            mailbox: self.mailbox@,
        }
    }
}

/// A format in which mailboxes are kept on disk. Paths are given as text.
///
/// Each format states, by the spec functions, what its methods return.
pub trait MailboxFormat {
    /// The message a file path under a root holds, if it is one.
    spec fn spec_parse_message_path(&self, path: Seq<char>, root: Seq<char>) -> Option<ParsedView>;

    /// The subdirectories of a mailbox that hold messages.
    spec fn spec_watch_subdirectories(&self) -> Seq<Seq<char>>;

    /// The part of a file name that records a set of flags.
    spec fn spec_flags_component(&self, flags: Seq<FlagModel>) -> Seq<char>;

    /// Whether a path names a message file.
    spec fn spec_is_valid_message_file(&self, path: Seq<char>, is_file: bool) -> bool;

    /// The message a file path under `root` holds, or `None` if the path is
    /// not a message file of this format.
    fn parse_message_path(&self, path: &str, root: &str) -> (r: Option<ParsedMessage>)
        ensures
            match r {
                Some(m) => self.spec_parse_message_path(path@, root@) == Some(m@),
                None => self.spec_parse_message_path(path@, root@) is None,
            },
    ;

    /// The subdirectories of a mailbox that hold messages.
    fn watch_subdirectories(&self) -> (r: Vec<&'static str>)
        ensures
            r@.map_values(|d: &'static str| d@) == self.spec_watch_subdirectories(),
    ;

    /// The part of a file name that records `flags`.
    fn flags_to_filename_component(&self, flags: &[MessageFlag]) -> (r: String)
        ensures
            r@ == self.spec_flags_component(flag_views(flags@)),
    ;

    /// Whether a path names a message file; `is_file` tells whether the path
    /// is a regular file.
    fn is_valid_message_file(&self, path: &str, is_file: bool) -> (r: bool)
        ensures
            r == self.spec_is_valid_message_file(path@, is_file),
    ;
}

// ---------------------------------------------------------------------------
// Flags in file names
// ---------------------------------------------------------------------------

/// The flag a Maildir flag letter stands for.
pub open spec fn maildir_flag(c: char) -> Option<FlagModel> {
    if c == 'D' {
        Some(FlagModel::Draft)
    } else if c == 'F' {
        Some(FlagModel::Flagged)
    } else if c == 'R' {
        Some(FlagModel::Answered)
    } else if c == 'S' {
        Some(FlagModel::Seen)
    } else if c == 'T' {
        Some(FlagModel::Deleted)
    } else {
        None
    }
}

/// The flags of a string of flag letters, in order; other letters are ignored.
pub open spec fn maildir_flags(s: Seq<char>) -> Seq<FlagModel>
    decreases s.len(),
{
    if s.len() == 0 {
        Seq::empty()
    } else {
        let rest = maildir_flags(s.drop_last());
        match maildir_flag(s.last()) {
            Some(f) => rest.push(f),
            None => rest,
        }
    }
}

/// The letter that records a flag; recent and custom flags have none.
pub open spec fn maildir_letter(f: FlagModel) -> Option<char> {
    match f {
        FlagModel::Draft => Some('D'),
        FlagModel::Flagged => Some('F'),
        FlagModel::Answered => Some('R'),
        FlagModel::Seen => Some('S'),
        FlagModel::Deleted => Some('T'),
        _ => None,
    }
}

/// How many of `fs` are recorded by the letter `c`.
pub open spec fn letter_count(fs: Seq<FlagModel>, c: char) -> nat
    decreases fs.len(),
{
    if fs.len() == 0 {
        0
    } else {
        letter_count(fs.drop_last(), c) + if maildir_letter(fs.last()) == Some(c) {
            1nat
        } else {
            0nat
        }
    }
}

/// `n` copies of `c`.
pub open spec fn letter_run(c: char, n: nat) -> Seq<char> {
    Seq::new(n, |_i: int| c)
}

/// The letters that record `fs`, in alphabetical order.
pub open spec fn maildir_letters(fs: Seq<FlagModel>) -> Seq<char> {
    letter_run('D', letter_count(fs, 'D')) + letter_run('F', letter_count(fs, 'F')) + letter_run(
        'R',
        letter_count(fs, 'R'),
    ) + letter_run('S', letter_count(fs, 'S')) + letter_run('T', letter_count(fs, 'T'))
}

/// The file name part that records `fs`: `:2,` and the sorted letters, or
/// nothing when no flag has a letter.
pub open spec fn maildir_component(fs: Seq<FlagModel>) -> Seq<char> {
    if maildir_letters(fs).len() == 0 {
        Seq::empty()
    } else {
        seq![':', '2', ','] + maildir_letters(fs)
    }
}

// ---------------------------------------------------------------------------
// File names and paths
// ---------------------------------------------------------------------------

/// The unique id in a file name: the text before the first colon.
pub open spec fn filename_id(f: Seq<char>) -> Seq<char> {
    match first_occurrence(f, seq![':']) {
        Some(i) => f.take(i),
        None => f,
    }
}

/// The flags in a file name: the letters after a first colon that starts
/// `:2,`, and none otherwise.
pub open spec fn filename_flags(f: Seq<char>) -> Seq<FlagModel> {
    match first_occurrence(f, seq![':']) {
        Some(i) => if f.skip(i).len() >= 3 && f.skip(i).take(3) == seq![':', '2', ','] {
            maildir_flags(f.skip(i + 3))
        } else {
            Seq::empty()
        },
        None => Seq::empty(),
    }
}

/// What a Maildir path under `root` holds: the path relative to the root
/// names a user, a mailbox, and `new` or `cur`, and its last component is the
/// file name.
pub open spec fn maildir_parse(path: Seq<char>, root: Seq<char>) -> Option<ParsedView> {
    match std_strip_prefix(path, root) {
        None => None,
        Some(rel) => {
            let c = std_components(rel);
            if c.len() < 4 {
                None
            } else if c[2] != "new"@ && c[2] != "cur"@ {
                None
            } else {
                match std_file_name(path) {
                    None => None,
                    Some(f) => Some(
                        ParsedView {
                            unique_id: filename_id(f),
                            flags: filename_flags(f),
                            is_new: c[2] == "new"@,
                            username: c[0],
                            mailbox: c[1],
                        },
                    ),
                }
            }
        },
    }
}

/// A Maildir message file: a regular file whose parent directory is `new`
/// or `cur`.
pub open spec fn maildir_message_file(path: Seq<char>, is_file: bool) -> bool {
    &&& is_file
    &&& std_parent(path) matches Some(parent) && std_file_name(parent) matches Some(n) && (n
        == "new"@ || n == "cur"@)
}

/// Maildir format parser.
pub struct MaildirFormat;

impl MaildirFormat {
    pub fn new() -> Self {
        MaildirFormat
    }

    /// The flags recorded by a string of Maildir flag letters.
    pub fn parse_flags(flags_str: &str) -> (r: Vec<MessageFlag>)
        ensures
            flag_views(r@) == maildir_flags(flags_str@),
    {
        let v = chars_of(flags_str);
        let mut flags: Vec<MessageFlag> = Vec::new();
        let mut i: usize = 0;
        while i < v.len()
            invariant
                i <= v@.len(),
                v@ == flags_str@,
                flag_views(flags@) == maildir_flags(v@.take(i as int)),
            decreases v@.len() - i,
        {
            let c = v[i];
            let ghost before = flags@;
            if c == 'D' {
                flags.push(MessageFlag::Draft);
            } else if c == 'F' {
                flags.push(MessageFlag::Flagged);
            } else if c == 'R' {
                flags.push(MessageFlag::Answered);
            } else if c == 'S' {
                flags.push(MessageFlag::Seen);
            } else if c == 'T' {
                flags.push(MessageFlag::Deleted);
            }
            proof {
                assert(v@.take(i as int + 1).drop_last() =~= v@.take(i as int));
                assert(v@.take(i as int + 1).last() == c);
                if maildir_flag(c) is Some {
                    assert(flag_views(flags@) =~= flag_views(before).push(
                        maildir_flag(c)->0,
                    ));
                } else {
                    assert(flags@ == before);
                }
            }
            i = i + 1;
        }
        assert(v@.take(v@.len() as int) =~= v@);
        flags
    }
}

/// Appends `n` copies of `c`.
fn push_run(s: &mut String, c: char, n: usize)
    ensures
        final(s)@ == old(s)@ + letter_run(c, n as nat),
{
    let mut k: usize = 0;
    while k < n
        invariant
            k <= n,
            s@ == old(s)@ + letter_run(c, k as nat),
        decreases n - k,
    {
        push_char(s, c);
        assert(letter_run(c, (k + 1) as nat) =~= letter_run(c, k as nat).push(c));
        k = k + 1;
    }
}

/// How many of `flags` each letter records, in the order D, F, R, S, T.
fn count_letters(flags: &[MessageFlag]) -> (r: (usize, usize, usize, usize, usize))
    ensures
        r.0 == letter_count(flag_views(flags@), 'D'),
        r.1 == letter_count(flag_views(flags@), 'F'),
        r.2 == letter_count(flag_views(flags@), 'R'),
        r.3 == letter_count(flag_views(flags@), 'S'),
        r.4 == letter_count(flag_views(flags@), 'T'),
{
    let mut d: usize = 0;
    let mut f: usize = 0;
    let mut r: usize = 0;
    let mut s: usize = 0;
    let mut t: usize = 0;
    let mut i: usize = 0;
    while i < flags.len()
        invariant
            i <= flags@.len(),
            d == letter_count(flag_views(flags@.take(i as int)), 'D'),
            f == letter_count(flag_views(flags@.take(i as int)), 'F'),
            r == letter_count(flag_views(flags@.take(i as int)), 'R'),
            s == letter_count(flag_views(flags@.take(i as int)), 'S'),
            t == letter_count(flag_views(flags@.take(i as int)), 'T'),
            d <= i && f <= i && r <= i && s <= i && t <= i,
        decreases flags@.len() - i,
    {
        proof {
            assert(flag_views(flags@.take(i as int + 1)).drop_last() =~= flag_views(
                flags@.take(i as int),
            ));
            assert(flag_views(flags@.take(i as int + 1)).last() == flags@[i as int]@);
        }
        match &flags[i] {
            MessageFlag::Draft => {
                d = d + 1;
            },
            MessageFlag::Flagged => {
                f = f + 1;
            },
            MessageFlag::Answered => {
                r = r + 1;
            },
            MessageFlag::Seen => {
                s = s + 1;
            },
            MessageFlag::Deleted => {
                t = t + 1;
            },
            _ => {},
        }
        i = i + 1;
    }
    assert(flags@.take(flags@.len() as int) =~= flags@);
    (d, f, r, s, t)
}

impl MailboxFormat for MaildirFormat {
    open spec fn spec_parse_message_path(&self, path: Seq<char>, root: Seq<char>) -> Option<
        ParsedView,
    > {
        maildir_parse(path, root)
    }

    open spec fn spec_watch_subdirectories(&self) -> Seq<Seq<char>> {
        seq!["new"@, "cur"@]
    }

    open spec fn spec_flags_component(&self, flags: Seq<FlagModel>) -> Seq<char> {
        maildir_component(flags)
    }

    open spec fn spec_is_valid_message_file(&self, path: Seq<char>, is_file: bool) -> bool {
        maildir_message_file(path, is_file)
    }

    fn parse_message_path(&self, path: &str, root: &str) -> (r: Option<ParsedMessage>) {
        let relative = match path_strip_prefix(path, root) {
            Some(rel) => rel,
            None => {
                return None;
            },
        };
        let components = path_components(relative.as_str());
        let ghost c = std_components(relative@);
        assert(components@.len() == c.len());
        if components.len() < 4 {
            return None;
        }
        assert(components@[0]@ == c[0] && components@[1]@ == c[1] && components@[2]@ == c[2]);
        let username = components[0].clone();
        let mailbox = components[1].clone();
        let subdir = components[2].as_str();
        let is_new = if same_text(subdir, "new") {
            true
        } else if same_text(subdir, "cur") {
            false
        } else {
            return None;
        };
        let filename = match path_file_name(path) {
            Some(f) => f,
            None => {
                return None;
            },
        };
        let fv = chars_of(filename.as_str());
        let mut colon: Vec<char> = Vec::new();
        colon.push(':');
        assert(colon@ =~= seq![':']);
        let (unique_id, flags) = match find_text(&fv, &colon) {
            Some(i) => {
                let id = string_of(fv.as_slice(), 0, i);
                assert(id@ =~= fv@.take(i as int));
                let rest_len = fv.len() - i;
                if rest_len >= 3 && fv[i + 1] == '2' && fv[i + 2] == ',' {
                    proof {
                        assert(occurs_at(fv@, seq![':'], i as int));
                        assert(fv@.subrange(i as int, i + 1) == seq![':']);
                        assert(fv@.subrange(i as int, i + 1)[0] == ':');
                        assert(fv@[i as int] == ':');
                        assert(fv@.skip(i as int).take(3) =~= seq![':', '2', ',']);
                    }
                    let tail = string_of(fv.as_slice(), i + 3, fv.len());
                    assert(tail@ =~= fv@.skip(i + 3));
                    (id, Self::parse_flags(tail.as_str()))
                } else {
                    proof {
                        if fv@.skip(i as int).len() >= 3 && fv@.skip(i as int).take(3) == seq![
                            ':',
                            '2',
                            ',',
                        ] {
                            assert(fv@.skip(i as int).take(3)[1] == '2');
                            assert(fv@.skip(i as int).take(3)[2] == ',');
                        }
                    }
                    let none: Vec<MessageFlag> = Vec::new();
                    assert(flag_views(none@) =~= Seq::<FlagModel>::empty());
                    (id, none)
                }
            },
            None => {
                let none: Vec<MessageFlag> = Vec::new();
                assert(flag_views(none@) =~= Seq::<FlagModel>::empty());
                (filename.clone(), none)
            },
        };
        Some(ParsedMessage { unique_id, flags, is_new, username, mailbox })
    }

    fn watch_subdirectories(&self) -> (r: Vec<&'static str>) {
        let mut v: Vec<&'static str> = Vec::new();
        v.push("new");
        v.push("cur");
        assert(v@.map_values(|d: &'static str| d@) =~= seq!["new"@, "cur"@]);
        v
    }

    fn flags_to_filename_component(&self, flags: &[MessageFlag]) -> (r: String) {
        let (d, f, r, s, t) = count_letters(flags);
        if d == 0 && f == 0 && r == 0 && s == 0 && t == 0 {
            return String::new();
        }
        let mut out = String::new();
        push_char(&mut out, ':');
        push_char(&mut out, '2');
        push_char(&mut out, ',');
        push_run(&mut out, 'D', d);
        push_run(&mut out, 'F', f);
        push_run(&mut out, 'R', r);
        push_run(&mut out, 'S', s);
        push_run(&mut out, 'T', t);
        assert(out@ =~= maildir_component(flag_views(flags@)));
        out
    }

    fn is_valid_message_file(&self, path: &str, is_file: bool) -> (r: bool) {
        if !is_file {
            return false;
        }
        match path_parent(path) {
            Some(parent) => match path_file_name(parent.as_str()) {
                Some(name) => same_text(name.as_str(), "new") || same_text(name.as_str(), "cur"),
                None => false,
            },
            None => false,
        }
    }
}

// ---------------------------------------------------------------------------
// Laws
// ---------------------------------------------------------------------------

/// The letters of a sequence are in alphabetical order.
pub open spec fn letters_sorted(s: Seq<char>) -> bool {
    forall|i: int, j: int| 0 <= i <= j < s.len() ==> (s[i] as u32) <= (s[j] as u32)
}

/// Every letter of `s` comes no later than `c`.
spec fn all_at_most(s: Seq<char>, c: char) -> bool {
    forall|i: int| 0 <= i < s.len() ==> (s[i] as u32) <= (c as u32)
}

proof fn lemma_append_run_sorted(s: Seq<char>, c: char, n: nat, d: char)
    requires
        letters_sorted(s),
        all_at_most(s, c),
        (c as u32) <= (d as u32),
    ensures
        letters_sorted(s + letter_run(c, n)),
        all_at_most(s + letter_run(c, n), d),
{
    let t = s + letter_run(c, n);
    assert forall|i: int, j: int| 0 <= i <= j < t.len() implies (t[i] as u32) <= (t[j] as u32) by {
        if j < s.len() {
        } else if i < s.len() {
            assert(t[j] == c);
        } else {
            assert(t[i] == c && t[j] == c);
        }
    }
    assert forall|i: int| 0 <= i < t.len() implies (t[i] as u32) <= (d as u32) by {
        if i >= s.len() {
            assert(t[i] == c);
        }
    }
}

/// The letters a file name records are in alphabetical order (the Maildir
/// convention), whatever order the flags came in.
pub proof fn law_component_letters_sorted(fs: Seq<FlagModel>)
    ensures
        letters_sorted(maildir_letters(fs)),
{
    let e = Seq::<char>::empty();
    let s1 = e + letter_run('D', letter_count(fs, 'D'));
    lemma_append_run_sorted(e, 'D', letter_count(fs, 'D'), 'F');
    let s2 = s1 + letter_run('F', letter_count(fs, 'F'));
    lemma_append_run_sorted(s1, 'F', letter_count(fs, 'F'), 'R');
    let s3 = s2 + letter_run('R', letter_count(fs, 'R'));
    lemma_append_run_sorted(s2, 'R', letter_count(fs, 'R'), 'S');
    let s4 = s3 + letter_run('S', letter_count(fs, 'S'));
    lemma_append_run_sorted(s3, 'S', letter_count(fs, 'S'), 'T');
    let s5 = s4 + letter_run('T', letter_count(fs, 'T'));
    lemma_append_run_sorted(s4, 'T', letter_count(fs, 'T'), 'T');
    assert(e + letter_run('D', letter_count(fs, 'D')) =~= letter_run('D', letter_count(fs, 'D')));
    assert(s5 =~= maildir_letters(fs));
}

proof fn lemma_maildir_flags_append(a: Seq<char>, b: Seq<char>)
    ensures
        maildir_flags(a + b) == maildir_flags(a) + maildir_flags(b),
    decreases b.len(),
{
    if b.len() == 0 {
        assert(a + b =~= a);
        assert(maildir_flags(a) + maildir_flags(b) =~= maildir_flags(a));
    } else {
        lemma_maildir_flags_append(a, b.drop_last());
        assert((a + b).drop_last() =~= a + b.drop_last());
        assert((a + b).last() == b.last());
        match maildir_flag(b.last()) {
            Some(f) => {
                assert(maildir_flags(a) + maildir_flags(b) =~= (maildir_flags(a) + maildir_flags(
                    b.drop_last(),
                )).push(f));
            },
            None => {},
        }
    }
}

/// `n` copies of the flag `f`.
pub open spec fn flag_run(f: FlagModel, n: nat) -> Seq<FlagModel> {
    Seq::new(n, |_i: int| f)
}

proof fn lemma_maildir_flags_run(c: char, f: FlagModel, n: nat)
    requires
        maildir_flag(c) == Some(f),
    ensures
        maildir_flags(letter_run(c, n)) == flag_run(f, n),
    decreases n,
{
    if n > 0 {
        lemma_maildir_flags_run(c, f, (n - 1) as nat);
        assert(letter_run(c, n).drop_last() =~= letter_run(c, (n - 1) as nat));
        assert(flag_run(f, n) =~= flag_run(f, (n - 1) as nat).push(f));
    } else {
        assert(flag_run(f, n) =~= Seq::<FlagModel>::empty());
    }
}

/// Flags written into a Maildir file name are read back from it: a file
/// named by a unique id without a colon followed by the component for `fs`
/// has that id, and flags that are those of `fs` that have a letter, in the
/// order D, F, R, S, T, each as often as in `fs`.
pub proof fn law_flags_survive_file_name(id: Seq<char>, fs: Seq<FlagModel>)
    requires
        !id.contains(':'),
    ensures
        filename_id(id + maildir_component(fs)) == id,
        filename_flags(id + maildir_component(fs)) == flag_run(
            FlagModel::Draft,
            letter_count(fs, 'D'),
        ) + flag_run(FlagModel::Flagged, letter_count(fs, 'F')) + flag_run(
            FlagModel::Answered,
            letter_count(fs, 'R'),
        ) + flag_run(FlagModel::Seen, letter_count(fs, 'S')) + flag_run(
            FlagModel::Deleted,
            letter_count(fs, 'T'),
        ),
{
    let letters = maildir_letters(fs);
    let rd = letter_run('D', letter_count(fs, 'D'));
    let rf = letter_run('F', letter_count(fs, 'F'));
    let rr = letter_run('R', letter_count(fs, 'R'));
    let rs = letter_run('S', letter_count(fs, 'S'));
    let rt = letter_run('T', letter_count(fs, 'T'));
    lemma_maildir_flags_run('D', FlagModel::Draft, letter_count(fs, 'D'));
    lemma_maildir_flags_run('F', FlagModel::Flagged, letter_count(fs, 'F'));
    lemma_maildir_flags_run('R', FlagModel::Answered, letter_count(fs, 'R'));
    lemma_maildir_flags_run('S', FlagModel::Seen, letter_count(fs, 'S'));
    lemma_maildir_flags_run('T', FlagModel::Deleted, letter_count(fs, 'T'));
    lemma_maildir_flags_append(rd, rf);
    lemma_maildir_flags_append(rd + rf, rr);
    lemma_maildir_flags_append(rd + rf + rr, rs);
    lemma_maildir_flags_append(rd + rf + rr + rs, rt);
    let expected = flag_run(FlagModel::Draft, letter_count(fs, 'D')) + flag_run(
        FlagModel::Flagged,
        letter_count(fs, 'F'),
    ) + flag_run(FlagModel::Answered, letter_count(fs, 'R')) + flag_run(
        FlagModel::Seen,
        letter_count(fs, 'S'),
    ) + flag_run(FlagModel::Deleted, letter_count(fs, 'T'));
    assert(maildir_flags(letters) == expected);
    let f = id + maildir_component(fs);
    if letters.len() == 0 {
        assert(f =~= id);
        assert(!has_colon(f)) by {
            if has_colon(f) {
                let k = choose|k: int| occurs_at(f, seq![':'], k);
                assert(f.subrange(k, k + 1)[0] == ':');
                assert(f[k] == ':');
            }
        }
        assert(expected =~= Seq::<FlagModel>::empty());
    } else {
        let i = id.len() as int;
        assert(f[i] == ':');
        assert(f.subrange(i, i + 1) =~= seq![':']);
        assert forall|j: int| 0 <= j < i implies !occurs_at(f, seq![':'], j) by {
            if occurs_at(f, seq![':'], j) {
                assert(f.subrange(j, j + 1)[0] == ':');
                assert(id[j] == ':');
            }
        }
        lemma_first_occurrence(f, seq![':'], i);
        assert(f.take(i) =~= id);
        assert(f.skip(i).take(3) =~= seq![':', '2', ',']);
        assert(f.skip(i + 3) =~= letters);
    }
}

/// The flags of `fs` that have a letter, in the order D, F, R, S, T, each as
/// often as in `fs`.
pub open spec fn lettered_flags(fs: Seq<FlagModel>) -> Seq<FlagModel> {
    flag_run(FlagModel::Draft, letter_count(fs, 'D')) + flag_run(
        FlagModel::Flagged,
        letter_count(fs, 'F'),
    ) + flag_run(FlagModel::Answered, letter_count(fs, 'R')) + flag_run(
        FlagModel::Seen,
        letter_count(fs, 'S'),
    ) + flag_run(FlagModel::Deleted, letter_count(fs, 'T'))
}

/// The file name component written for `fs` is empty exactly when no flag
/// of `fs` has a letter; otherwise it is `:2,` followed by letters that
/// `parse_flags` reads back as the lettered flags of `fs` (recent and custom
/// flags drop out).
pub proof fn law_component_parses_back(fs: Seq<FlagModel>)
    ensures
        (maildir_component(fs).len() == 0) == (lettered_flags(fs).len() == 0),
        maildir_component(fs).len() > 0 ==> {
            &&& maildir_component(fs).take(3) == seq![':', '2', ',']
            &&& maildir_flags(maildir_component(fs).skip(3)) == lettered_flags(fs)
        },
{
    let letters = maildir_letters(fs);
    let rd = letter_run('D', letter_count(fs, 'D'));
    let rf = letter_run('F', letter_count(fs, 'F'));
    let rr = letter_run('R', letter_count(fs, 'R'));
    let rs = letter_run('S', letter_count(fs, 'S'));
    let rt = letter_run('T', letter_count(fs, 'T'));
    lemma_maildir_flags_run('D', FlagModel::Draft, letter_count(fs, 'D'));
    lemma_maildir_flags_run('F', FlagModel::Flagged, letter_count(fs, 'F'));
    lemma_maildir_flags_run('R', FlagModel::Answered, letter_count(fs, 'R'));
    lemma_maildir_flags_run('S', FlagModel::Seen, letter_count(fs, 'S'));
    lemma_maildir_flags_run('T', FlagModel::Deleted, letter_count(fs, 'T'));
    lemma_maildir_flags_append(rd, rf);
    lemma_maildir_flags_append(rd + rf, rr);
    lemma_maildir_flags_append(rd + rf + rr, rs);
    lemma_maildir_flags_append(rd + rf + rr + rs, rt);
    assert(maildir_flags(letters) == lettered_flags(fs));
    assert(letters.len() == lettered_flags(fs).len());
    if letters.len() > 0 {
        assert(maildir_component(fs).take(3) =~= seq![':', '2', ',']);
        assert(maildir_component(fs).skip(3) =~= letters);
    }
}

/// Whether a colon occurs in `f`.
spec fn has_colon(f: Seq<char>) -> bool {
    crate::text::has_substring(f, seq![':'])
}

} // verus!
