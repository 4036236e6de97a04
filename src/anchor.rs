use vstd::prelude::*;
use vstd::string::StringExecFns;

verus! {

/// Where along its band a label or legend sits.
#[derive(Clone, Copy, Debug, PartialEq, Eq, Structural)]
#[non_exhaustive]
pub enum Anchor {
    Start,
    Middle,
    End,
}

/// The lower-case form of a string, as `str::to_lowercase` gives it.
pub uninterp spec fn lower_of(s: Seq<char>) -> Seq<char>;

/// Relies on `str::to_lowercase`: its result depends on the characters alone,
/// and the empty string stays empty.
#[verifier::external_body]
fn lowercase(s: &str) -> (r: String)
    ensures
        r@ == lower_of(s@),
        s@.len() == 0 ==> r@.len() == 0,
{
    s.to_lowercase()
}

/// The anchor that a lower-case keyword names, if any.
pub open spec fn keyword_anchor(t: Seq<char>) -> Option<Anchor> {
    if t == "start"@ {
        Some(Anchor::Start)
    } else if t == "middle"@ {
        Some(Anchor::Middle)
    } else if t == "end"@ {
        Some(Anchor::End)
    } else {
        None
    }
}

/// The keyword of an anchor.
pub open spec fn anchor_keyword(a: Anchor) -> Seq<char> {
    match a {
        Anchor::Start => "start"@,
        Anchor::Middle => "middle"@,
        Anchor::End => "end"@,
    }
}

/// The message that names an input that is no anchor keyword.
pub open spec fn unknown_anchor_message(s: Seq<char>) -> Seq<char> {
    "unknown anchor: `"@ + s + "`"@
}

impl Anchor {
    /// The anchor named by an already lower-cased keyword.
    pub fn from_lowercase(t: &String) -> (r: Option<Anchor>)
        ensures
            r == keyword_anchor(t@),
    {
        if *t == String::from_str("start") {
            Some(Anchor::Start)
        } else if *t == String::from_str("middle") {
            Some(Anchor::Middle)
        } else if *t == String::from_str("end") {
            Some(Anchor::End)
        } else {
            None
        }
    }

    /// Reads an anchor keyword, ignoring case; any other input is an error
    /// whose message names it.
    pub fn parse(s: &str) -> (r: Result<Anchor, String>)
        ensures
            keyword_anchor(lower_of(s@)) matches Some(a) ==> r == Ok::<Anchor, String>(a),
            keyword_anchor(lower_of(s@)) is None ==> (r matches Err(e) && e@
                == unknown_anchor_message(s@)),
    {
        let t = lowercase(s);
        match Anchor::from_lowercase(&t) {
            Some(a) => Ok(a),
            None => {
                let mut e = String::from_str("unknown anchor: `");
                e.append(s);
                e.append("`");
                Err(e)
            },
        }
    }

    /// The anchor's keyword, also its SVG `text-anchor` value.
    pub fn to_svg_attr(&self) -> (r: String)
        ensures
            r@ == anchor_keyword(*self),
    {
        match self {
            Anchor::Start => String::from_str("start"),
            Anchor::Middle => String::from_str("middle"),
            Anchor::End => String::from_str("end"),
        }
    }

    /// Picks the point that matches the anchor.
    pub fn map_points(&self, left: i64, middle: i64, right: i64) -> (r: i64)
        ensures
            r == match *self {
                Anchor::Start => left,
                Anchor::Middle => middle,
                Anchor::End => right,
            },
    {
        match self {
            Anchor::Start => left,
            Anchor::Middle => middle,
            Anchor::End => right,
        }
    }

    /// The CSS `justify-content` value that places content at the anchor.
    pub fn css_justify_content(&self) -> (r: &'static str)
        ensures
            r@ == match *self {
                Anchor::Start => "flex-start"@,
                Anchor::Middle => "center"@,
                Anchor::End => "flex-end"@,
            },
    {
        match self {
            Anchor::Start => "flex-start",
            Anchor::Middle => "center",
            Anchor::End => "flex-end",
        }
    }
}

impl std::str::FromStr for Anchor {
    type Err = String;

    fn from_str(s: &str) -> Result<Anchor, String> {
        Anchor::parse(s)
    }
}

/// Each anchor's own keyword names that anchor, so the SVG attribute that an
/// anchor writes reads back as the same anchor.
pub proof fn lemma_keyword_round_trip(a: Anchor)
    ensures
        keyword_anchor(anchor_keyword(a)) == Some(a),
{
    reveal_strlit("start");
    reveal_strlit("middle");
    reveal_strlit("end");
    assert("start"@.len() != "middle"@.len());
    assert("start"@.len() != "end"@.len());
    assert("middle"@.len() != "end"@.len());
}

} // verus!
