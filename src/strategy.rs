//! Market categories, as the agent's filters match them against questions.

use vstd::prelude::*;
use vstd::string::StringSliceAdditionalSpecFns;

verus! {

/// The agent's trading strategy; the part of its rules that this library
/// holds is the category vocabulary of `category_keywords`.
pub struct Strategy;

/// The lower-case form of text (full Unicode case mapping).
pub uninterp spec fn lowercase_of(s: Seq<char>) -> Seq<char>;

/// Relies on std's `str::to_lowercase`: the result depends on the characters
/// alone.
#[verifier::external_body]
fn to_lowercase(s: &str) -> (r: String)
    ensures
        r@ == lowercase_of(s@),
{
    s.to_lowercase()
}

/// Whether two texts are the same characters.
pub fn same_text(a: &str, b: &str) -> (r: bool)
    ensures
        r == (a@ == b@),
{
    let x = a.as_bytes();
    let y = b.as_bytes();
    proof {
        vstd::utf8::encode_utf8_decode_utf8(a@);
        vstd::utf8::encode_utf8_decode_utf8(b@);
    }
    if x.len() != y.len() {
        proof {
            if a@ == b@ {
                assert(a.spec_bytes() == b.spec_bytes());
            }
        }
        return false;
    }
    let mut i: usize = 0;
    while i < x.len()
        invariant
            i <= x@.len(),
            x@.len() == y@.len(),
            x@ == a.spec_bytes(),
            y@ == b.spec_bytes(),
            x@.subrange(0, i as int) == y@.subrange(0, i as int),
        decreases x@.len() - i,
    {
        if x[i] != y[i] {
            proof {
                assert(x@[i as int] != y@[i as int]);
                if a@ == b@ {
                    assert(a.spec_bytes() == b.spec_bytes());
                    assert(x@ == y@);
                }
            }
            return false;
        }
        i = i + 1;
        assert(x@.subrange(0, i as int) =~= x@.subrange(0, i - 1).push(x@[i - 1]));
        assert(y@.subrange(0, i as int) =~= y@.subrange(0, i - 1).push(y@[i - 1]));
    }
    assert(x@ =~= x@.subrange(0, i as int));
    assert(y@ =~= y@.subrange(0, i as int));
    true
}

/// The keywords of a category name given in lower case; none for a name
/// that is no category.
pub open spec fn keywords_for(category: Seq<char>) -> Seq<Seq<char>> {
    if category == "politics"@ {
        seq![
            "president"@, "election"@, "congress"@, "senate"@, "vote"@, "trump"@, "biden"@,
            "democrat"@, "republican"@, "governor"@, "mayor"@, "parliament"@,
        ]
    } else if category == "crypto"@ {
        seq![
            "bitcoin"@, "btc"@, "ethereum"@, "eth"@, "solana"@, "sol"@, "crypto"@,
            "blockchain"@, "defi"@, "token"@, "coin"@, "nft"@,
        ]
    } else if category == "sports"@ {
        seq![
            "nba"@, "nfl"@, "mlb"@, "nhl"@, "soccer"@, "football"@, "basketball"@,
            "baseball"@, "championship"@, "playoffs"@, "super bowl"@, "world cup"@,
            "finals"@,
        ]
    } else if category == "geopolitics"@ {
        seq![
            "war"@, "invasion"@, "strike"@, "ceasefire"@, "nato"@, "sanctions"@, "nuclear"@,
            "missile"@, "iran"@, "ukraine"@, "russia"@, "china"@, "taiwan"@, "israel"@,
        ]
    } else if category == "economics"@ || category == "economy"@ {
        seq![
            "fed"@, "interest rate"@, "inflation"@, "gdp"@, "recession"@, "unemployment"@,
            "cpi"@, "s&p"@, "nasdaq"@, "dow"@, "stock"@, "tariff"@,
        ]
    } else if category == "tech"@ || category == "ai"@ {
        seq![
            "ai"@, "agi"@, "openai"@, "google"@, "apple"@, "microsoft"@, "meta"@, "nvidia"@,
            "chatgpt"@, "artificial intelligence"@,
        ]
    } else {
        seq![]
    }
}

/// The keywords of a category, named in any case.
pub fn category_keywords(category: &str) -> (r: Vec<&'static str>)
    ensures
        r@.map_values(|k: &str| k@) == keywords_for(lowercase_of(category@)),
{
    let lower = to_lowercase(category);
    let c = lower.as_str();
    let r: Vec<&'static str> = if same_text(c, "politics") {
        vec![
            "president", "election", "congress", "senate", "vote", "trump", "biden",
            "democrat", "republican", "governor", "mayor", "parliament",
        ]
    } else if same_text(c, "crypto") {
        vec![
            "bitcoin", "btc", "ethereum", "eth", "solana", "sol", "crypto", "blockchain",
            "defi", "token", "coin", "nft",
        ]
    } else if same_text(c, "sports") {
        vec![
            "nba", "nfl", "mlb", "nhl", "soccer", "football", "basketball", "baseball",
            "championship", "playoffs", "super bowl", "world cup", "finals",
        ]
    } else if same_text(c, "geopolitics") {
        vec![
            "war", "invasion", "strike", "ceasefire", "nato", "sanctions", "nuclear",
            "missile", "iran", "ukraine", "russia", "china", "taiwan", "israel",
        ]
    } else if same_text(c, "economics") || same_text(c, "economy") {
        vec![
            "fed", "interest rate", "inflation", "gdp", "recession", "unemployment", "cpi",
            "s&p", "nasdaq", "dow", "stock", "tariff",
        ]
    } else if same_text(c, "tech") || same_text(c, "ai") {
        vec![
            "ai", "agi", "openai", "google", "apple", "microsoft", "meta", "nvidia", "chatgpt",
            "artificial intelligence",
        ]
    } else {
        Vec::new()
    };
    proof {
        assert(r@.map_values(|k: &str| k@) =~= keywords_for(lowercase_of(category@)));
    }
    r
}

} // verus!
