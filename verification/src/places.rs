//! The fixed world map: each place has a display name and a derived slug id
//! (lowercased, alphanumeric runs joined by dashes).
use crate::util::{alphanumeric, lower_of};
use crate::util::lowercase;
use vstd::prelude::*;
use vstd::string::StrSliceExecFns;
use vstd::string::StringExecFns;

verus! {

/// A named location a player can travel to.
#[derive(Clone, Copy, PartialEq, Eq, Structural, Debug)]
pub enum Place {
    Forest,
    Capital,
    HomeMinsley,
    HomeZyex,
    HomeMoonpool,
    HomeVivi,
    DevTest,
}

/// The slug of a character sequence, built left to right: alphanumeric
/// characters are kept, with a single dash between runs; everything else is
/// dropped.
pub open spec fn slug_rec(s: Seq<char>, i: int, acc: Seq<char>, pending: bool) -> Seq<char>
    decreases s.len() - i,
{
    if i < 0 || i >= s.len() {
        acc
    } else {
        let c = s[i];
        if alphanumeric(c) {
            let acc2 = if pending {
                acc.push('-').push(c)
            } else {
                acc.push(c)
            };
            slug_rec(s, i + 1, acc2, false)
        } else {
            slug_rec(s, i + 1, acc, pending || acc.len() > 0)
        }
    }
}

pub open spec fn slug_of(s: Seq<char>) -> Seq<char> {
    slug_rec(s, 0, Seq::empty(), false)
}

/// Builds the slug of `s` executably.
pub fn slugify(s: &str) -> (r: String)
    ensures
        r@ == slug_of(s@),
{
    let n = s.unicode_len();
    let mut out = String::new();
    let mut pending = false;
    let mut i: usize = 0;
    while i < n
        invariant
            n == s@.len(),
            i <= n,
            pending ==> out@.len() > 0,
            slug_rec(s@, i as int, out@, pending) == slug_of(s@),
        decreases n - i,
    {
        let ghost acc0 = out@;
        let c = s.get_char(i);
        if c.is_alphanumeric() {
            if pending {
                out.append("-");
                proof {
                    reveal_strlit("-");
                    assert(out@ =~= acc0.push('-'));
                }
            }
            let ghost mid = out@;
            let piece = s.substring_char(i, i + 1);
            out.append(piece);
            proof {
                assert(piece@ =~= seq![s@[i as int]]);
                assert(out@ =~= mid.push(s@[i as int]));
            }
            pending = false;
        } else {
            if !out.as_str().is_empty() {
                pending = true;
            }
        }
        i = i + 1;
    }
    out
}

pub open spec fn spec_place_name(p: Place) -> Seq<char> {
    match p {
        Place::Forest => "The Forest"@,
        Place::Capital => "The Capital"@,
        Place::HomeMinsley => "Minsley Manor"@,
        Place::HomeZyex => "Zyex's Home"@,
        Place::HomeMoonpool => "Moonpool Manor"@,
        Place::HomeVivi => "Vivi's Tower?"@,
        Place::DevTest => "Development Zone"@,
    }
}

impl Place {
    /// The display name of the place.
    pub fn name(&self) -> (r: &'static str)
        ensures
            r@ == spec_place_name(*self),
    {
        match self {
            Place::Forest => "The Forest",
            Place::Capital => "The Capital",
            Place::HomeMinsley => "Minsley Manor",
            Place::HomeZyex => "Zyex's Home",
            Place::HomeMoonpool => "Moonpool Manor",
            Place::HomeVivi => "Vivi's Tower?",
            Place::DevTest => "Development Zone",
        }
    }

    /// The slug id of the place: its lowercased name with alphanumeric runs
    /// joined by dashes.
    pub fn id(&self) -> (r: String)
        ensures
            r@ == slug_of(lower_of(spec_place_name(*self))),
    {
        let lowered = lowercase(self.name());
        slugify(lowered.as_str())
    }
}

/// The places offered to players, in their declared order (the Moonpool home
/// is not offered).
pub fn places() -> (r: Vec<Place>)
    ensures
        r@ == seq![
            Place::Forest,
            Place::Capital,
            Place::HomeMinsley,
            Place::HomeZyex,
            Place::HomeVivi,
            Place::DevTest,
        ],
{
    let mut v: Vec<Place> = Vec::new();
    v.push(Place::Forest);
    v.push(Place::Capital);
    v.push(Place::HomeMinsley);
    v.push(Place::HomeZyex);
    v.push(Place::HomeVivi);
    v.push(Place::DevTest);
    proof {
        assert(v@ =~= seq![
            Place::Forest,
            Place::Capital,
            Place::HomeMinsley,
            Place::HomeZyex,
            Place::HomeVivi,
            Place::DevTest,
        ]);
    }
    v
}

} // verus!
