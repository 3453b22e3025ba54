//! Colours for what is printed, and the path to a field of a JSON
//! document.
use crate::text::{append_str, string_of, string_views};
use vstd::prelude::*;

verus! {

/// A colour, by its red, green and blue parts.
#[derive(Clone, Copy, Debug, PartialEq, Eq, Structural)]
pub struct Rgb {
    pub r: u8,
    pub g: u8,
    pub b: u8,
}

/// The kinds of values that are printed in a colour of their own.
#[derive(Clone, Copy, Debug, PartialEq, Eq, Structural)]
pub enum DataType {
    String,
    Number,
    Boolean,
    Null,
    Code,
    Path,
    Url,
}

/// The JSON form of a text, quotes and escapes included, as `sonic_rs`
/// writes it; `None` where it reports an error.
pub uninterp spec fn json_quoted(text: Seq<char>) -> Option<Seq<char>>;

/// `sonic_rs::to_string` on a string slice: the JSON form named
/// `json_quoted`.
#[verifier::external_body]
pub(crate) fn json_quote(text: &str) -> (r: Option<String>)
    ensures
        crate::patterns::text_view(r) == json_quoted(text@),
{
    match sonic_rs::to_string(text) {
        Ok(quoted) => Some(quoted),
        Err(_) => None,
    }
}

/// The codes that end a colour.
pub open spec fn spec_reset() -> Seq<char> {
    seq!['\u{1b}', '[', '0', 'm']
}

/// Whether the text ends a colour somewhere inside.
pub open spec fn spec_resets(text: Seq<char>) -> bool {
    exists|i: int| 0 <= i && i + 4 <= text.len() && #[trigger] text.subrange(i, i + 4) == spec_reset()
}

/// Whether `shown` is `text` in a colour: the text as it is, where no
/// colour is applied; or the text behind the codes of a colour and before
/// the codes that end it. Of a text that ends a colour inside nothing is
/// said.
pub open spec fn spec_colored(text: Seq<char>, shown: Seq<char>) -> bool {
    spec_resets(text) || shown == text || exists|style: Seq<char>|
        shown == style + text + spec_reset()
}

/// `colored::Colorize::color` with a true colour, written out. Whether a
/// colour is applied, and with which codes, is for the terminal and the
/// environment to say. Either way the text stays whole: it comes back as it
/// is, or between the codes of a colour and the codes that end it. This is
/// claimed of a text without such an ending inside; in others the crate
/// writes the codes anew behind each ending.
#[verifier::external_body]
pub(crate) fn paint(text: &str, color: Rgb) -> (painted: String)
    ensures
        spec_colored(text@, painted@),
{
    colored::Colorize::color(
        text,
        colored::Color::TrueColor { r: color.r, g: color.g, b: color.b },
    ).to_string()
}

impl DataType {
    pub open spec fn spec_color(self) -> Rgb {
        match self {
            DataType::String => Rgb { r: 50, g: 170, b: 80 },
            DataType::Number => Rgb { r: 255, g: 215, b: 0 },
            DataType::Boolean => Rgb { r: 250, g: 160, b: 35 },
            DataType::Null => Rgb { r: 160, g: 80, b: 180 },
            DataType::Code => Rgb { r: 135, g: 175, b: 255 },
            DataType::Path => Rgb { r: 215, g: 95, b: 215 },
            DataType::Url => Rgb { r: 215, g: 95, b: 215 },
        }
    }

    /// The colour of a kind of value.
    pub fn color(&self) -> (color: Rgb)
        ensures
            color == self.spec_color(),
    {
        match self {
            DataType::String => Rgb { r: 50, g: 170, b: 80 },
            DataType::Number => Rgb { r: 255, g: 215, b: 0 },
            DataType::Boolean => Rgb { r: 250, g: 160, b: 35 },
            DataType::Null => Rgb { r: 160, g: 80, b: 180 },
            DataType::Code => Rgb { r: 135, g: 175, b: 255 },
            DataType::Path => Rgb { r: 215, g: 95, b: 215 },
            DataType::Url => Rgb { r: 215, g: 95, b: 215 },
        }
    }

    /// The text in the colour of its kind. Whether any colour is applied
    /// is for the terminal and the environment to say; the text stays
    /// whole either way.
    pub fn colorize(&self, value: &str) -> (shown: String)
        ensures
            spec_colored(value@, shown@),
    {
        paint(value, self.color())
    }
}

/// The path to a field of a JSON document, segment by segment.
#[derive(Debug)]
pub struct JsonPath(pub Vec<String>);

/// The length of a text in bytes, as the machine counts it.
pub open spec fn byte_len(text: Seq<char>) -> usize {
    vstd::utf8::encode_utf8(text).len() as usize
}

/// Whether the JSON form `quoted` of a segment only puts quotes around it:
/// whether it is two bytes longer than the segment.
pub open spec fn spec_only_quotes(segment: Seq<char>, quoted: Seq<char>) -> bool {
    byte_len(segment) <= usize::MAX - 2 && byte_len(quoted) == byte_len(segment) + 2
}

pub fn only_quotes(segment: &str, quoted: &str) -> (r: bool)
    ensures
        r == spec_only_quotes(segment@, quoted@),
{
    let plain = segment.len();
    plain <= usize::MAX - 2 && quoted.len() == plain + 2
}

/// Whether a segment is written as it is: where JSON would only put
/// quotes around it, or cannot write it at all.
pub open spec fn spec_is_plain(segment: Seq<char>) -> bool {
    match json_quoted(segment) {
        Some(quoted) => spec_only_quotes(segment, quoted),
        None => true,
    }
}

/// One segment as it is written: as it is where it is plain, and else in
/// its JSON form between brackets.
pub open spec fn spec_segment(segment: Seq<char>) -> Seq<char> {
    if spec_is_plain(segment) {
        segment
    } else {
        "["@ + json_quoted(segment)->0 + "]"@
    }
}

/// The first `n` segments, written with dots between them.
pub open spec fn spec_json_path(segments: Seq<Seq<char>>, n: nat) -> Seq<char>
    decreases n,
{
    if n == 0 {
        Seq::empty()
    } else if n == 1 {
        spec_segment(segments[0])
    } else {
        spec_json_path(segments, (n - 1) as nat) + "."@ + spec_segment(segments[n - 1])
    }
}

/// Whether a segment is written as it is; its JSON form otherwise.
fn plain_segment(segment: &String) -> (quoted: Option<String>)
    ensures
        match quoted {
            None => spec_is_plain(segment@),
            Some(q) => !spec_is_plain(segment@) && json_quoted(segment@) == Some(q@),
        },
{
    match json_quote(segment.as_str()) {
        Some(quoted) => {
            if only_quotes(segment.as_str(), quoted.as_str()) {
                None
            } else {
                Some(quoted)
            }
        },
        None => None,
    }
}

/// The parts that a path is printed in, one after another, for its first
/// `n` segments: a dot before every segment but the first, and the
/// segment, as it is or as a bracket, its JSON form and a bracket.
pub open spec fn spec_path_parts(segments: Seq<Seq<char>>, n: nat) -> Seq<Seq<char>>
    decreases n,
{
    if n == 0 {
        Seq::empty()
    } else {
        let before = spec_path_parts(segments, (n - 1) as nat);
        let dotted = if n > 1 {
            before.push("."@)
        } else {
            before
        };
        if spec_is_plain(segments[n - 1]) {
            dotted.push(segments[n - 1])
        } else {
            dotted.push("["@).push(json_quoted(segments[n - 1])->0).push("]"@)
        }
    }
}

/// The first `n` parts, one behind the other.
pub open spec fn spec_joined(parts: Seq<Seq<char>>, n: nat) -> Seq<char>
    decreases n,
{
    if n == 0 {
        Seq::empty()
    } else {
        spec_joined(parts, (n - 1) as nat) + parts[n - 1]
    }
}

/// Whether `shown` holds the parts, each in a colour.
pub open spec fn spec_shows(parts: Seq<Seq<char>>, shown: Seq<Seq<char>>) -> bool {
    shown.len() == parts.len() && forall|i: int|
        0 <= i < parts.len() ==> spec_colored(#[trigger] parts[i], shown[i])
}

proof fn lemma_joined_prefix(parts: Seq<Seq<char>>, part: Seq<char>, n: nat)
    requires
        n <= parts.len(),
    ensures
        spec_joined(parts.push(part), n) == spec_joined(parts, n),
    decreases n,
{
    if n > 0 {
        lemma_joined_prefix(parts, part, (n - 1) as nat);
        assert(parts.push(part)[n - 1] == parts[n - 1]);
    }
}

proof fn lemma_shows_push(
    parts: Seq<Seq<char>>,
    shown: Seq<Seq<char>>,
    part: Seq<char>,
    piece: Seq<char>,
)
    requires
        spec_shows(parts, shown),
        spec_colored(part, piece),
    ensures
        spec_shows(parts.push(part), shown.push(piece)),
        spec_joined(shown.push(piece), shown.len() + 1) == spec_joined(shown, shown.len()) + piece,
{
    lemma_joined_prefix(shown, piece, shown.len());
    assert forall|i: int| 0 <= i < parts.push(part).len() implies spec_colored(
        #[trigger] parts.push(part)[i],
        shown.push(piece)[i],
    ) by {
        if i < parts.len() {
            assert(spec_colored(parts[i], shown[i]));
        }
    }
}

/// The parts of a path, one behind the other, are the path as text: so
/// where no colour is applied, a path is printed as it is written.
pub proof fn law_parts_make_the_path(segments: Seq<Seq<char>>, n: nat)
    requires
        n <= segments.len(),
    ensures
        spec_joined(spec_path_parts(segments, n), spec_path_parts(segments, n).len())
            == spec_json_path(segments, n),
    decreases n,
{
    if n > 0 {
        law_parts_make_the_path(segments, (n - 1) as nat);
        let before = spec_path_parts(segments, (n - 1) as nat);
        let text = spec_joined(before, before.len());
        let dotted = if n > 1 {
            before.push("."@)
        } else {
            before
        };
        let so_far = spec_joined(dotted, dotted.len());
        if n > 1 {
            lemma_joined_prefix(before, "."@, before.len());
            assert(so_far == text + "."@);
        } else {
            assert(so_far =~= Seq::<char>::empty());
        }
        let segment = segments[n - 1];
        if spec_is_plain(segment) {
            lemma_joined_prefix(dotted, segment, dotted.len());
            assert(spec_joined(dotted.push(segment), dotted.len() + 1) == so_far + segment);
        } else {
            let quoted = json_quoted(segment)->0;
            let a = dotted.push("["@);
            let b = a.push(quoted);
            let c = b.push("]"@);
            lemma_joined_prefix(dotted, "["@, dotted.len());
            lemma_joined_prefix(a, quoted, a.len());
            lemma_joined_prefix(b, "]"@, b.len());
            assert(spec_joined(c, c.len()) == so_far + "["@ + quoted + "]"@);
            assert(so_far + "["@ + quoted + "]"@ =~= so_far + ("["@ + quoted + "]"@));
        }
        if n == 1 {
            assert(spec_joined(spec_path_parts(segments, n), spec_path_parts(segments, n).len())
                =~= spec_segment(segment));
        }
    }
}

impl JsonPath {
    pub fn new(path: Vec<String>) -> (json_path: JsonPath)
        ensures
            json_path.0 == path,
    {
        JsonPath(path)
    }

    pub fn segments(&self) -> (segments: &Vec<String>)
        ensures
            *segments == self.0,
    {
        &self.0
    }

    /// The path as text, such as `dependencies.lodash` or
    /// `scripts.["a\"b"]`.
    pub fn to_file_string(&self) -> (text: String)
        ensures
            text@ == spec_json_path(string_views(self.0@), self.0@.len()),
    {
        let mut out: Vec<char> = Vec::new();
        let mut i: usize = 0;
        while i < self.0.len()
            invariant
                i <= self.0.len(),
                out@ == spec_json_path(string_views(self.0@), i as nat),
            decreases self.0.len() - i,
        {
            assert(string_views(self.0@)[i as int] == self.0@[i as int]@);
            let ghost before = out@;
            if i > 0 {
                append_str(&mut out, ".");
            }
            match plain_segment(&self.0[i]) {
                None => {
                    append_str(&mut out, self.0[i].as_str());
                },
                Some(quoted) => {
                    append_str(&mut out, "[");
                    append_str(&mut out, quoted.as_str());
                    append_str(&mut out, "]");
                },
            }
            proof {
                let seg = spec_segment(self.0@[i as int]@);
                if i == 0 {
                    assert(out@ =~= seg);
                } else {
                    assert(out@ =~= before + "."@ + seg);
                }
            }
            i += 1;
        }
        string_of(&out)
    }

    /// The path as it is printed: the parts of `to_file_string`, each in
    /// its colour where colours are applied. Dots, brackets and plain
    /// segments are coloured as code, the JSON form of a segment as a
    /// string.
    pub fn to_print_string(&self) -> (text: String)
        ensures
            exists|shown: Seq<Seq<char>>|
                spec_shows(
                    #[trigger] spec_path_parts(string_views(self.0@), self.0@.len()),
                    shown,
                ) && text@ == spec_joined(shown, shown.len()),
    {
        let mut out: Vec<char> = Vec::new();
        let ghost mut parts: Seq<Seq<char>> = Seq::empty();
        let ghost mut shown: Seq<Seq<char>> = Seq::empty();
        let mut i: usize = 0;
        while i < self.0.len()
            invariant
                i <= self.0.len(),
                parts == spec_path_parts(string_views(self.0@), i as nat),
                spec_shows(parts, shown),
                out@ == spec_joined(shown, shown.len()),
            decreases self.0.len() - i,
        {
            assert(string_views(self.0@)[i as int] == self.0@[i as int]@);
            if i > 0 {
                let dot = DataType::Code.colorize(".");
                append_str(&mut out, dot.as_str());
                proof {
                    lemma_shows_push(parts, shown, "."@, dot@);
                    parts = parts.push("."@);
                    shown = shown.push(dot@);
                }
            }
            match plain_segment(&self.0[i]) {
                None => {
                    let painted = DataType::Code.colorize(self.0[i].as_str());
                    append_str(&mut out, painted.as_str());
                    proof {
                        lemma_shows_push(parts, shown, self.0@[i as int]@, painted@);
                        parts = parts.push(self.0@[i as int]@);
                        shown = shown.push(painted@);
                    }
                },
                Some(quoted) => {
                    let open = DataType::Code.colorize("[");
                    let inner = DataType::String.colorize(quoted.as_str());
                    let close = DataType::Code.colorize("]");
                    append_str(&mut out, open.as_str());
                    proof {
                        lemma_shows_push(parts, shown, "["@, open@);
                        parts = parts.push("["@);
                        shown = shown.push(open@);
                    }
                    append_str(&mut out, inner.as_str());
                    proof {
                        lemma_shows_push(parts, shown, quoted@, inner@);
                        parts = parts.push(quoted@);
                        shown = shown.push(inner@);
                    }
                    append_str(&mut out, close.as_str());
                    proof {
                        lemma_shows_push(parts, shown, "]"@, close@);
                        parts = parts.push("]"@);
                        shown = shown.push(close@);
                    }
                },
            }
            i += 1;
        }
        string_of(&out)
    }
}

} // verus!
