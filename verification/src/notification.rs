//! Desktop notification text.
//!
//! Notifications are best-effort and go out through platform tools in the
//! shell around the library. What is verified here is the text handed to
//! them: the AppleScript snippet embeds the title and body between double
//! quotes, so every double quote inside them must be escaped first.

use vstd::prelude::*;

verus! {

/// The text with a backslash put before every double quote.
pub open spec fn spec_escaped_quotes(s: Seq<char>) -> Seq<char>
    decreases s.len(),
{
    if s.len() == 0 {
        Seq::empty()
    } else if s[0] == '"' {
        seq!['\\', '"'] + spec_escaped_quotes(s.skip(1))
    } else {
        seq![s[0]] + spec_escaped_quotes(s.skip(1))
    }
}

/// Escaping one more character appends its expansion.
proof fn lemma_escaped_quotes_push(s: Seq<char>, c: char)
    ensures
        spec_escaped_quotes(s.push(c)) == spec_escaped_quotes(s) + (if c == '"' {
            seq!['\\', '"']
        } else {
            seq![c]
        }),
    decreases s.len(),
{
    let p = s.push(c);
    let e = if c == '"' {
        seq!['\\', '"']
    } else {
        seq![c]
    };
    if s.len() == 0 {
        assert(p[0] == c);
        assert(p.skip(1) =~= Seq::<char>::empty());
        assert(spec_escaped_quotes(p.skip(1)) =~= Seq::<char>::empty());
        assert(spec_escaped_quotes(p) =~= e);
        assert(spec_escaped_quotes(s) =~= Seq::<char>::empty());
        assert(spec_escaped_quotes(s) + e =~= e);
    } else {
        assert(p[0] == s[0]);
        lemma_escaped_quotes_push(s.skip(1), c);
        assert(p.skip(1) =~= s.skip(1).push(c));
        let h = if s[0] == '"' {
            seq!['\\', '"']
        } else {
            seq![s[0]]
        };
        assert(spec_escaped_quotes(p) == h + spec_escaped_quotes(p.skip(1)));
        assert(spec_escaped_quotes(s) == h + spec_escaped_quotes(s.skip(1)));
        assert(h + (spec_escaped_quotes(s.skip(1)) + e) =~= (h + spec_escaped_quotes(s.skip(1)))
            + e);
    }
}

/// Put a backslash before every double quote.
#[verifier::loop_isolation(false)]
pub fn escape_quotes(s: &str) -> (r: String)
    ensures
        r@ == spec_escaped_quotes(s@),
{
    let len = s.unicode_len();
    let mut out = String::new();
    let mut i: usize = 0;
    while i < len
        invariant
            i <= len,
            out@ == spec_escaped_quotes(s@.take(i as int)),
        decreases len - i,
    {
        let c = s.get_char(i);
        proof {
            lemma_escaped_quotes_push(s@.take(i as int), c);
            assert(s@.take(i as int + 1) =~= s@.take(i as int).push(c));
        }
        if c == '"' {
            out.append("\\\"");
            proof {
                reveal_strlit("\\\"");
                assert("\\\""@ =~= seq!['\\', '"']);
            }
        } else {
            let piece = s.substring_char(i, i + 1);
            out.append(piece);
            proof {
                assert(piece@ =~= seq![c]);
            }
        }
        i = i + 1;
    }
    proof {
        assert(s@.take(len as int) =~= s@);
    }
    out
}

/// The AppleScript snippet that displays one notification; both texts are
/// embedded with their double quotes escaped, so the snippet stays one
/// well-formed statement whatever they hold.
pub fn notification_script(title: &str, body: &str) -> (r: String)
    ensures
        r@ == "display notification \""@ + spec_escaped_quotes(body@) + "\" with title \""@
            + spec_escaped_quotes(title@) + "\""@,
{
    let mut out = String::from_str("display notification \"");
    let eb = escape_quotes(body);
    out.append(eb.as_str());
    out.append("\" with title \"");
    let et = escape_quotes(title);
    out.append(et.as_str());
    out.append("\"");
    proof {
        assert(out@ =~= "display notification \""@ + spec_escaped_quotes(body@)
            + "\" with title \""@ + spec_escaped_quotes(title@) + "\""@);
    }
    out
}

} // verus!
