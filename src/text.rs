use vstd::prelude::*;

verus! {

/// `parts` joined by `sep`: nothing for no parts, the one part for one part.
pub open spec fn joined(parts: Seq<Seq<char>>, sep: Seq<char>) -> Seq<char>
    decreases parts.len(),
{
    if parts.len() == 0 {
        Seq::empty()
    } else if parts.len() == 1 {
        parts[0]
    } else {
        joined(parts.drop_last(), sep) + sep + parts.last()
    }
}

/// The text `key=value`.
pub open spec fn pair_text(key: Seq<char>, value: Seq<char>) -> Seq<char> {
    key + seq!['='] + value
}

/// The view of a list of string pairs.
pub open spec fn pairs_view(pairs: Seq<(String, String)>) -> Seq<(Seq<char>, Seq<char>)> {
    pairs.map_values(|p: (String, String)| (p.0@, p.1@))
}

/// The `key=value` texts of a list of pairs, in order.
pub open spec fn pair_texts(pairs: Seq<(Seq<char>, Seq<char>)>) -> Seq<Seq<char>> {
    pairs.map_values(|p: (Seq<char>, Seq<char>)| pair_text(p.0, p.1))
}

/// The separator between cookies: `; `.
pub open spec fn cookie_separator() -> Seq<char> {
    seq![';', ' ']
}

/// The value of the `Cookie` header for `cookies`: the `key=value` pairs in
/// order, joined by `; `. No cookies give an empty value.
pub open spec fn cookie_text(cookies: Seq<(Seq<char>, Seq<char>)>) -> Seq<char> {
    joined(pair_texts(cookies), cookie_separator())
}

/// One step of a join: adding a part to a prefix of the parts.
pub proof fn lemma_joined_push(parts: Seq<Seq<char>>, sep: Seq<char>, i: int)
    requires
        0 <= i < parts.len(),
    ensures
        joined(parts.take(i + 1), sep) == if i == 0 {
            parts[0]
        } else {
            joined(parts.take(i), sep) + sep + parts[i]
        },
{
    assert(parts.take(i + 1).drop_last() =~= parts.take(i));
}

/// Builds the `Cookie` header value: each cookie as `key=value`, in order,
/// joined by `; `.
pub fn cookie_header(cookies: &Vec<(String, String)>) -> (r: String)
    ensures
        r@ == cookie_text(pairs_view(cookies@)),
{
    let ghost parts = pair_texts(pairs_view(cookies@));
    let mut r = String::new();
    let mut i: usize = 0;
    while i < cookies.len()
        invariant
            i <= cookies.len(),
            parts == pair_texts(pairs_view(cookies@)),
            parts.len() == cookies@.len(),
            r@ == joined(parts.take(i as int), cookie_separator()),
        decreases cookies.len() - i,
    {
        proof {
            lemma_joined_push(parts, cookie_separator(), i as int);
            reveal_strlit("; ");
            reveal_strlit("=");
        }
        if i > 0 {
            r.append("; ");
        }
        r.append(cookies[i].0.as_str());
        r.append("=");
        r.append(cookies[i].1.as_str());
        i = i + 1;
    }
    assert(parts.take(cookies.len() as int) =~= parts);
    r
}

} // verus!
