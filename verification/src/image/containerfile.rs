//! A builder for Containerfile (Dockerfile) text: an ordered list of
//! instructions, one per line.
use vstd::prelude::*;

use crate::text::{decimal, join, seq_join, string_views, u64_to_decimal};

verus! {

/// A Containerfile under construction. Its view is the sequence of its
/// instructions, in the order in which they were added.
pub struct Containerfile {
    instructions: Vec<String>,
}

impl View for Containerfile {
    type V = Seq<Seq<char>>;

    closed spec fn view(&self) -> Seq<Seq<char>> {
        string_views(self.instructions@)
    }
}

/// `FROM <image>`
pub open spec fn from_instruction(image: Seq<char>) -> Seq<char> {
    "FROM "@ + image
}

/// `ARG <key>=<val>`
pub open spec fn arg_instruction(key: Seq<char>, val: Seq<char>) -> Seq<char> {
    "ARG "@ + key + "="@ + val
}

/// `RUN <cmd>`
pub open spec fn run_instruction(cmd: Seq<char>) -> Seq<char> {
    "RUN "@ + cmd
}

/// `COPY <src> <dst>`
pub open spec fn copy_instruction(src: Seq<char>, dst: Seq<char>) -> Seq<char> {
    "COPY "@ + src + " "@ + dst
}

/// `ENV <key>=<val>`
pub open spec fn env_instruction(key: Seq<char>, val: Seq<char>) -> Seq<char> {
    "ENV "@ + key + "="@ + val
}

/// `EXPOSE <port>`
pub open spec fn expose_instruction(port: nat) -> Seq<char> {
    "EXPOSE "@ + decimal(port)
}

/// `USER <user>`
pub open spec fn user_instruction(user: Seq<char>) -> Seq<char> {
    "USER "@ + user
}

/// The character of a lower-case hexadecimal digit.
pub open spec fn hex_digit(d: nat) -> char {
    if d < 10 {
        crate::text::digit_char(d)
    } else if d == 10 {
        'a'
    } else if d == 11 {
        'b'
    } else if d == 12 {
        'c'
    } else if d == 13 {
        'd'
    } else if d == 14 {
        'e'
    } else {
        'f'
    }
}

/// How one character is written inside a JSON string literal: the quote and the
/// backslash are escaped, the control characters below U+0020 get their short
/// escape or a `\u00XX` escape, and every other character stands as it is.
pub open spec fn json_escape(c: char) -> Seq<char> {
    if c == '"' {
        seq!['\\', '"']
    } else if c == '\\' {
        seq!['\\', '\\']
    } else if c == '\x08' {
        seq!['\\', 'b']
    } else if c == '\t' {
        seq!['\\', 't']
    } else if c == '\n' {
        seq!['\\', 'n']
    } else if c == '\x0c' {
        seq!['\\', 'f']
    } else if c == '\r' {
        seq!['\\', 'r']
    } else if (c as u32) < 0x20 {
        seq!['\\', 'u', '0', '0', hex_digit((c as u32 / 16) as nat), hex_digit((c as u32 % 16) as nat)]
    } else {
        seq![c]
    }
}

/// The escaped body of a JSON string literal.
pub open spec fn json_escape_all(s: Seq<char>) -> Seq<char>
    decreases s.len(),
{
    if s.len() == 0 {
        Seq::empty()
    } else {
        json_escape(s[0]) + json_escape_all(s.drop_first())
    }
}

/// The JSON string literal that denotes `s`.
pub open spec fn json_string_literal(s: Seq<char>) -> Seq<char> {
    seq!['"'] + json_escape_all(s) + seq!['"']
}

/// `ENTRYPOINT [<arg>, ...]`, each argument written as a JSON string literal.
pub open spec fn entrypoint_instruction(cmd: Seq<Seq<char>>) -> Seq<char> {
    "ENTRYPOINT ["@ + seq_join(cmd.map_values(|a: Seq<char>| json_string_literal(a)), ", "@) + "]"@
}

/// Serializes a string slice with `serde_json::to_string`.
///
/// Trusted: serde_json writes a string as a JSON string literal, escaping the
/// characters the way `json_escape` describes (its `format_escaped_str`); for a
/// string slice the serialization does not fail.
#[verifier::external_body]
fn json_quote(s: &str) -> (res: String)
    ensures
        res@ == json_string_literal(s@),
{
    match serde_json::to_string(s) {
        Ok(quoted) => quoted,
        Err(_) => String::new(),
    }
}

/// An empty Containerfile builds to empty text.
pub proof fn law_empty_builds_empty()
    ensures
        seq_join(Seq::<Seq<char>>::empty(), "\n"@) == Seq::<char>::empty(),
{
}

/// Extending is associative: `a.extend(b).extend(c)` and `a.extend(&b.extend(c))`
/// hold the same instructions.
pub proof fn law_extend_associative(a: Seq<Seq<char>>, b: Seq<Seq<char>>, c: Seq<Seq<char>>)
    ensures
        (a + b) + c == a + (b + c),
{
    assert((a + b) + c =~= a + (b + c));
}

/// An empty Containerfile is neutral for extending, on either side.
pub proof fn law_extend_empty(a: Seq<Seq<char>>)
    ensures
        a + Seq::<Seq<char>>::empty() == a,
        Seq::<Seq<char>>::empty() + a == a,
{
    assert(a + Seq::<Seq<char>>::empty() =~= a);
    assert(Seq::<Seq<char>>::empty() + a =~= a);
}

/// The text of `a.extend(b)`, both non-empty, is the text of `a`, a line break
/// and the text of `b`.
pub proof fn law_build_of_extend(a: Seq<Seq<char>>, b: Seq<Seq<char>>)
    requires
        a.len() > 0,
        b.len() > 0,
    ensures
        seq_join(a + b, "\n"@) == seq_join(a, "\n"@) + "\n"@ + seq_join(b, "\n"@),
    decreases b.len(),
{
    if b.len() == 1 {
        assert((a + b).drop_last() =~= a);
    } else {
        law_build_of_extend(a, b.drop_last());
        assert((a + b).drop_last() =~= a + b.drop_last());
        assert((seq_join(a, "\n"@) + "\n"@ + seq_join(b.drop_last(), "\n"@)) + "\n"@ + b.last()
            =~= seq_join(a, "\n"@) + "\n"@ + (seq_join(b.drop_last(), "\n"@) + "\n"@ + b.last()));
    }
}

/// The value of a hexadecimal digit, in either case.
pub open spec fn hex_value(c: char) -> Option<nat> {
    let v = c as u32;
    if 48 <= v <= 57 {
        Some((v - 48) as nat)
    } else if 97 <= v <= 102 {
        Some((v - 87) as nat)
    } else if 65 <= v <= 70 {
        Some((v - 55) as nat)
    } else {
        None
    }
}

/// The code point of a character.
pub open spec fn code_point(c: char) -> nat {
    c as u32 as nat
}

/// The character with code point `code`.
pub open spec fn char_of(code: nat) -> char {
    choose|c: char| #[trigger] code_point(c) == code
}

/// The character that a two-character escape `\c` of JSON stands for.
pub open spec fn short_unescape(c: char) -> Option<char> {
    if c == '"' {
        Some('"')
    } else if c == '\\' {
        Some('\\')
    } else if c == '/' {
        Some('/')
    } else if c == 'b' {
        Some('\x08')
    } else if c == 'f' {
        Some('\x0c')
    } else if c == 'n' {
        Some('\n')
    } else if c == 'r' {
        Some('\r')
    } else if c == 't' {
        Some('\t')
    } else {
        None
    }
}

/// `r` with the character `c`, written with `n` characters, read before it.
pub open spec fn read_after(c: char, n: nat, r: Option<(Seq<char>, nat)>) -> Option<(Seq<char>, nat)> {
    match r {
        Some((v, k)) => Some((seq![c] + v, k + n)),
        None => None,
    }
}

/// Reads the body of a JSON string literal from the start of `t` up to its
/// closing quote: the characters it denotes and how many characters of `t` it
/// takes (the closing quote is not counted). `None` when `t` holds no such body.
pub open spec fn read_json_body(t: Seq<char>) -> Option<(Seq<char>, nat)>
    decreases t.len(),
{
    if t.len() == 0 {
        None
    } else if t[0] == '"' {
        Some((Seq::empty(), 0))
    } else if t[0] == '\\' {
        if t.len() < 2 {
            None
        } else if short_unescape(t[1]) is Some {
            read_after(short_unescape(t[1]).unwrap(), 2, read_json_body(t.subrange(2, t.len() as int)))
        } else if t[1] == 'u' && t.len() >= 6 && hex_value(t[2]) is Some && hex_value(t[3]) is Some
            && hex_value(t[4]) is Some && hex_value(t[5]) is Some {
            let code = hex_value(t[2]).unwrap() * 4096 + hex_value(t[3]).unwrap() * 256 + hex_value(t[4]).unwrap()
                * 16 + hex_value(t[5]).unwrap();
            read_after(char_of(code), 6, read_json_body(t.subrange(6, t.len() as int)))
        } else {
            None
        }
    } else if (t[0] as u32) < 0x20 {
        None
    } else {
        read_after(t[0], 1, read_json_body(t.subrange(1, t.len() as int)))
    }
}

/// Reads JSON string literals separated by `, ` and closed by `]`: the strings
/// they denote, or `None` when `t` is not so made.
pub open spec fn read_json_items(t: Seq<char>) -> Option<Seq<Seq<char>>>
    decreases t.len(),
{
    if t.len() > 0 && t[0] == '"' {
        match read_json_body(t.subrange(1, t.len() as int)) {
            Some((v, k)) => if k + 2 <= t.len() {
                let after = t.subrange(k + 2 as int, t.len() as int);
                if after == seq![']'] {
                    Some(seq![v])
                } else if after.len() >= 2 && after[0] == ',' && after[1] == ' ' {
                    match read_json_items(t.subrange(k + 4 as int, t.len() as int)) {
                        Some(vs) => Some(seq![v] + vs),
                        None => None,
                    }
                } else {
                    None
                }
            } else {
                None
            },
            None => None,
        }
    } else {
        None
    }
}

/// Reads a JSON array of strings written as `entrypoint` writes one (`[]`, or
/// the literals separated by `, ` between brackets): the strings, or `None`.
pub open spec fn read_json_string_array(t: Seq<char>) -> Option<Seq<Seq<char>>> {
    if t == seq!['[', ']'] {
        Some(Seq::empty())
    } else if t.len() > 0 && t[0] == '[' {
        read_json_items(t.subrange(1, t.len() as int))
    } else {
        None
    }
}

proof fn lemma_hex_round_trip(d: nat)
    requires
        d < 16,
    ensures
        hex_value(hex_digit(d)) == Some(d),
{
}

proof fn lemma_char_of(c: char)
    ensures
        char_of(c as u32 as nat) == c,
{
    assert(code_point(c) == c as u32 as nat);
    let x = char_of(c as u32 as nat);
    assert(code_point(x) == code_point(c));
}

proof fn lemma_read_escaped_char(c: char, t: Seq<char>)
    ensures
        read_json_body(json_escape(c) + t) == read_after(c, json_escape(c).len(), read_json_body(t)),
{
    let e = json_escape(c);
    let u = e + t;
    if e.len() == 2 {
        assert(u.subrange(2, u.len() as int) =~= t);
    } else if e.len() == 6 {
        assert(u.subrange(6, u.len() as int) =~= t);
        let hi = (c as u32 / 16) as nat;
        let lo = (c as u32 % 16) as nat;
        lemma_hex_round_trip(hi);
        lemma_hex_round_trip(lo);
        lemma_hex_round_trip(0);
        assert(hex_digit(0) == '0');
        assert(hi * 16 + lo == c as u32);
        lemma_char_of(c);
    } else {
        assert(u.subrange(1, u.len() as int) =~= t);
    }
}

proof fn lemma_read_body(x: Seq<char>, rest: Seq<char>)
    ensures
        read_json_body(json_escape_all(x) + seq!['"'] + rest) == Some((x, json_escape_all(x).len())),
    decreases x.len(),
{
    if x.len() == 0 {
        assert(json_escape_all(x) + seq!['"'] + rest =~= seq!['"'] + rest);
        assert(x =~= Seq::<char>::empty());
    } else {
        let tail = json_escape_all(x.drop_first()) + seq!['"'] + rest;
        assert(json_escape_all(x) + seq!['"'] + rest =~= json_escape(x[0]) + tail);
        lemma_read_escaped_char(x[0], tail);
        lemma_read_body(x.drop_first(), rest);
        assert(seq![x[0]] + x.drop_first() =~= x);
    }
}

proof fn lemma_seq_join_front(parts: Seq<Seq<char>>, sep: Seq<char>)
    requires
        parts.len() >= 2,
    ensures
        seq_join(parts, sep) == parts[0] + sep + seq_join(parts.drop_first(), sep),
    decreases parts.len(),
{
    if parts.len() == 2 {
        assert(parts.drop_last() =~= seq![parts[0]]);
        assert(parts.drop_first() =~= seq![parts[1]]);
        assert(seq_join(parts.drop_last(), sep) == parts[0]);
        assert(seq_join(parts.drop_first(), sep) == parts[1]);
        assert(parts.last() == parts[1]);
    } else {
        lemma_seq_join_front(parts.drop_last(), sep);
        assert(parts.drop_last().drop_first() =~= parts.drop_first().drop_last());
        assert(seq_join(parts, sep) =~= parts[0] + sep + seq_join(parts.drop_first(), sep));
    }
}

/// The JSON string literals of a list of strings.
pub open spec fn json_literals(args: Seq<Seq<char>>) -> Seq<Seq<char>> {
    args.map_values(|a: Seq<char>| json_string_literal(a))
}

proof fn lemma_read_items(args: Seq<Seq<char>>)
    requires
        args.len() >= 1,
    ensures
        read_json_items(seq_join(json_literals(args), ", "@) + "]"@) == Some(args),
    decreases args.len(),
{
    reveal_strlit(", ");
    reveal_strlit("]");
    let lits = json_literals(args);
    let a0 = args[0];
    let rest: Seq<char> = if args.len() == 1 {
        "]"@
    } else {
        ", "@ + seq_join(json_literals(args.drop_first()), ", "@) + "]"@
    };
    if args.len() >= 2 {
        lemma_seq_join_front(lits, ", "@);
        assert(lits.drop_first() =~= json_literals(args.drop_first()));
    }
    let t = seq_join(lits, ", "@) + "]"@;
    assert(lits[0] == json_string_literal(a0));
    assert(t =~= seq!['"'] + json_escape_all(a0) + seq!['"'] + rest);
    let k = json_escape_all(a0).len();
    assert(t.subrange(1, t.len() as int) =~= json_escape_all(a0) + seq!['"'] + rest);
    lemma_read_body(a0, rest);
    assert(t.subrange(k + 2 as int, t.len() as int) =~= rest);
    if args.len() == 1 {
        assert(rest =~= seq![']']);
        assert(seq![a0] =~= args);
    } else {
        assert(rest[0] == ',');
        assert(rest[1] == ' ');
        assert(rest != seq![']']);
        lemma_read_items(args.drop_first());
        assert(t.subrange(k + 4 as int, t.len() as int) =~= seq_join(json_literals(args.drop_first()), ", "@) + "]"@);
        assert(seq![a0] + args.drop_first() =~= args);
    }
}

/// Reading back the argument list of an `ENTRYPOINT` instruction as a JSON
/// array of strings gives the arguments it was written with, whatever
/// characters they hold: the text is `ENTRYPOINT ` followed by that array.
pub proof fn law_entrypoint_round_trip(cmd: Seq<Seq<char>>)
    ensures
        crate::text::has_prefix(entrypoint_instruction(cmd), "ENTRYPOINT "@),
        read_json_string_array(
            entrypoint_instruction(cmd).subrange(11, entrypoint_instruction(cmd).len() as int),
        ) == Some(cmd),
{
    reveal_strlit("ENTRYPOINT [");
    reveal_strlit("ENTRYPOINT ");
    reveal_strlit("]");
    let lits = json_literals(cmd);
    let text = entrypoint_instruction(cmd);
    let body = seq_join(lits, ", "@);
    assert(text =~= "ENTRYPOINT "@ + seq!['['] + body + "]"@);
    assert(text.subrange(0, 11) =~= "ENTRYPOINT "@);
    let array = text.subrange(11, text.len() as int);
    assert(array =~= seq!['['] + body + "]"@);
    if cmd.len() == 0 {
        assert(lits =~= Seq::<Seq<char>>::empty());
        assert(array =~= seq!['[', ']']);
    } else {
        if cmd.len() >= 2 {
            lemma_seq_join_front(lits, ", "@);
        }
        assert(lits[0] == json_string_literal(cmd[0]));
        assert(body.len() >= 2);
        assert(array.len() > 2);
        assert(array.subrange(1, array.len() as int) =~= body + "]"@);
        lemma_read_items(cmd);
    }
}

/// A string without quotes, backslashes or control characters is quoted as it
/// stands: `json_string_literal(s)` is `s` between double quotes.
pub proof fn law_plain_json_literal(s: Seq<char>)
    requires
        forall|i: int| 0 <= i < s.len() ==> (s[i] as u32) >= 0x20 && s[i] != '"' && s[i] != '\\',
    ensures
        json_string_literal(s) == seq!['"'] + s + seq!['"'],
{
    lemma_plain_escape_all(s);
}

proof fn lemma_plain_escape_all(s: Seq<char>)
    requires
        forall|i: int| 0 <= i < s.len() ==> (s[i] as u32) >= 0x20 && s[i] != '"' && s[i] != '\\',
    ensures
        json_escape_all(s) == s,
    decreases s.len(),
{
    if s.len() > 0 {
        lemma_plain_escape_all(s.drop_first());
        assert(json_escape(s[0]) == seq![s[0]]);
        assert(json_escape_all(s) =~= s);
    } else {
        assert(json_escape_all(s) =~= s);
    }
}

/// The text of a Containerfile with these instructions: one per line.
pub open spec fn containerfile_text(instructions: Seq<Seq<char>>) -> Seq<char> {
    seq_join(instructions, "\n"@)
}

/// `text` with `line` added as its last line.
pub open spec fn append_line(text: Seq<char>, line: Seq<char>) -> Seq<char> {
    if text.len() == 0 {
        line
    } else {
        text + "\n"@ + line
    }
}

/// Two texts, the second after the first on a line of its own; an empty text
/// adds nothing.
pub open spec fn join_texts(a: Seq<char>, b: Seq<char>) -> Seq<char> {
    if a.len() == 0 {
        b
    } else if b.len() == 0 {
        a
    } else {
        a + "\n"@ + b
    }
}

/// Every instruction is a non-empty line.
pub open spec fn all_nonempty(instructions: Seq<Seq<char>>) -> bool {
    forall|i: int| 0 <= i < instructions.len() ==> #[trigger] instructions[i].len() > 0
}

proof fn lemma_text_empty_iff(parts: Seq<Seq<char>>)
    requires
        all_nonempty(parts),
    ensures
        containerfile_text(parts).len() == 0 <==> parts.len() == 0,
{
    if parts.len() == 1 {
        assert(parts[0].len() > 0);
    } else if parts.len() > 1 {
        assert(parts.last().len() > 0);
    }
}

proof fn lemma_text_push(parts: Seq<Seq<char>>, line: Seq<char>)
    requires
        all_nonempty(parts),
    ensures
        containerfile_text(parts.push(line)) == append_line(containerfile_text(parts), line),
{
    lemma_text_empty_iff(parts);
    assert(parts.push(line).drop_last() =~= parts);
    if parts.len() == 0 {
        assert(parts.push(line) =~= seq![line]);
    }
}

proof fn lemma_text_concat(a: Seq<Seq<char>>, b: Seq<Seq<char>>)
    requires
        all_nonempty(a),
        all_nonempty(b),
    ensures
        containerfile_text(a + b) == join_texts(containerfile_text(a), containerfile_text(b)),
{
    lemma_text_empty_iff(a);
    lemma_text_empty_iff(b);
    if a.len() == 0 {
        assert(a + b =~= b);
    } else if b.len() == 0 {
        assert(a + b =~= a);
    } else {
        law_build_of_extend(a, b);
    }
}

impl Containerfile {
    #[verifier::type_invariant]
    closed spec fn wf(self) -> bool {
        all_nonempty(string_views(self.instructions@))
    }

    /// An empty Containerfile.
    pub fn new() -> (res: Self)
        ensures
            res@ == Seq::<Seq<char>>::empty(),
            containerfile_text(res@) == Seq::<char>::empty(),
    {
        let res = Containerfile { instructions: Vec::new() };
        assert(res@ =~= Seq::<Seq<char>>::empty());
        res
    }

    fn push(self, instruction: String) -> (res: Self)
        requires
            instruction@.len() > 0,
        ensures
            res@ == self@.push(instruction@),
            containerfile_text(res@) == append_line(containerfile_text(self@), instruction@),
    {
        proof {
            use_type_invariant(&self);
            lemma_text_push(self@, instruction@);
        }
        let mut instructions = self.instructions;
        let ghost before = instructions@;
        instructions.push(instruction);
        assert(string_views(instructions@) =~= string_views(before).push(instruction@));
        let res = Containerfile { instructions };
        res
    }

    /// Appends `FROM <image>`.
    pub fn from(self, image: &str) -> (res: Self)
        ensures
            res@ == self@.push(from_instruction(image@)),
            containerfile_text(res@) == append_line(containerfile_text(self@), from_instruction(image@)),
    {
        proof {
            reveal_strlit("FROM ");
        }
        let mut s = "FROM ".to_owned();
        s.append(image);
        self.push(s)
    }

    /// Appends `ARG <key>=<val>`.
    pub fn arg(self, key: &str, val: &str) -> (res: Self)
        ensures
            res@ == self@.push(arg_instruction(key@, val@)),
            containerfile_text(res@) == append_line(containerfile_text(self@), arg_instruction(key@, val@)),
    {
        proof {
            reveal_strlit("ARG ");
        }
        let mut s = "ARG ".to_owned();
        s.append(key);
        s.append("=");
        s.append(val);
        self.push(s)
    }

    /// Appends `RUN <cmd>`.
    pub fn run(self, cmd: &str) -> (res: Self)
        ensures
            res@ == self@.push(run_instruction(cmd@)),
            containerfile_text(res@) == append_line(containerfile_text(self@), run_instruction(cmd@)),
    {
        proof {
            reveal_strlit("RUN ");
        }
        let mut s = "RUN ".to_owned();
        s.append(cmd);
        self.push(s)
    }

    /// Appends `COPY <src> <dst>`.
    pub fn copy(self, src: &str, dst: &str) -> (res: Self)
        ensures
            res@ == self@.push(copy_instruction(src@, dst@)),
            containerfile_text(res@) == append_line(containerfile_text(self@), copy_instruction(src@, dst@)),
    {
        proof {
            reveal_strlit("COPY ");
        }
        let mut s = "COPY ".to_owned();
        s.append(src);
        s.append(" ");
        s.append(dst);
        self.push(s)
    }

    /// Appends `ENV <key>=<val>`.
    pub fn env(self, key: &str, val: &str) -> (res: Self)
        ensures
            res@ == self@.push(env_instruction(key@, val@)),
            containerfile_text(res@) == append_line(containerfile_text(self@), env_instruction(key@, val@)),
    {
        proof {
            reveal_strlit("ENV ");
        }
        let mut s = "ENV ".to_owned();
        s.append(key);
        s.append("=");
        s.append(val);
        self.push(s)
    }

    /// Appends `EXPOSE <port>`.
    pub fn expose(self, port: u16) -> (res: Self)
        ensures
            res@ == self@.push(expose_instruction(port as nat)),
            containerfile_text(res@) == append_line(containerfile_text(self@), expose_instruction(port as nat)),
    {
        proof {
            reveal_strlit("EXPOSE ");
        }
        let mut s = "EXPOSE ".to_owned();
        s.append(u64_to_decimal(port as u64).as_str());
        self.push(s)
    }

    /// Appends `USER <user>`.
    pub fn user(self, user: &str) -> (res: Self)
        ensures
            res@ == self@.push(user_instruction(user@)),
            containerfile_text(res@) == append_line(containerfile_text(self@), user_instruction(user@)),
    {
        proof {
            reveal_strlit("USER ");
        }
        let mut s = "USER ".to_owned();
        s.append(user);
        self.push(s)
    }

    /// Appends `ENTRYPOINT [...]` in exec form, each argument quoted as JSON.
    pub fn entrypoint(self, cmd: &[&str]) -> (res: Self)
        ensures
            res@ == self@.push(entrypoint_instruction(cmd@.map_values(|a: &str| a@))),
            containerfile_text(res@) == append_line(containerfile_text(self@), entrypoint_instruction(cmd@.map_values(|a: &str| a@))),
    {
        proof {
            reveal_strlit("ENTRYPOINT [");
        }
        let ghost args = cmd@.map_values(|a: &str| a@);
        let ghost quoted_spec = args.map_values(|a: Seq<char>| json_string_literal(a));
        let mut quoted: Vec<String> = Vec::new();
        let mut i: usize = 0;
        while i < cmd.len()
            invariant
                i <= cmd@.len(),
                args == cmd@.map_values(|a: &str| a@),
                quoted_spec == args.map_values(|a: Seq<char>| json_string_literal(a)),
                string_views(quoted@) =~= quoted_spec.take(i as int),
            decreases cmd.len() - i,
        {
            let q = json_quote(cmd[i]);
            let ghost before = quoted@;
            quoted.push(q);
            proof {
                assert(args[i as int] == cmd@[i as int]@);
                assert(quoted_spec[i as int] == json_string_literal(args[i as int]));
                assert(string_views(quoted@) =~= string_views(before).push(q@));
                assert(quoted_spec.take(i + 1) =~= quoted_spec.take(i as int).push(
                    quoted_spec[i as int],
                ));
            }
            i = i + 1;
        }
        assert(quoted_spec.take(cmd@.len() as int) =~= quoted_spec);
        let mut s = "ENTRYPOINT [".to_owned();
        s.append(join(&quoted, ", ").as_str());
        s.append("]");
        self.push(s)
    }

    /// Appends every instruction of `other`, in order.
    pub fn extend(self, other: &Self) -> (res: Self)
        ensures
            res@ == self@ + other@,
            containerfile_text(res@) == join_texts(containerfile_text(self@), containerfile_text(other@)),
    {
        proof {
            use_type_invariant(&self);
            use_type_invariant(other);
            lemma_text_concat(self@, other@);
        }
        let mut res = self;
        let mut i: usize = 0;
        let ghost start = res@;
        while i < other.instructions.len()
            invariant
                i <= other.instructions@.len(),
                res@ == start + other@.take(i as int),
            decreases other.instructions.len() - i,
        {
            let ghost before = res@;
            proof {
                use_type_invariant(other);
                assert(other@[i as int] == other.instructions@[i as int]@);
            }
            res = res.push(other.instructions[i].clone());
            proof {
                assert(other@[i as int] == other.instructions@[i as int]@);
                assert(other@.take(i + 1) =~= other@.take(i as int).push(other@[i as int]));
                assert(res@ =~= start + other@.take(i + 1));
            }
            i = i + 1;
        }
        assert(other@.take(other@.len() as int) =~= other@);
        res
    }

    /// The Containerfile text: the instructions, one per line.
    pub fn build(self) -> (res: String)
        ensures
            res@ == seq_join(self@, "\n"@),
            res@ == containerfile_text(self@),
    {
        join(&self.instructions, "\n")
    }
}

} // verus!
