//! Magnet link detection.

use vstd::prelude::*;

verus! {

/// Whether the text is a magnet URI: it begins with the scheme `magnet:`.
pub open spec fn is_magnet(s: Seq<char>) -> bool {
    s.len() >= 7 && s.subrange(0, 7) == "magnet:"@
}

/// Decides whether the text should be handed to a torrent client.
pub fn is_applicable(text: &str) -> (r: bool)
    ensures
        r == is_magnet(text@),
{
    proof {
        reveal_strlit("magnet:");
    }
    let n = text.unicode_len();
    if n < 7 {
        return false;
    }
    let hit = text.get_char(0) == 'm' && text.get_char(1) == 'a' && text.get_char(2) == 'g'
        && text.get_char(3) == 'n' && text.get_char(4) == 'e' && text.get_char(5) == 't'
        && text.get_char(6) == ':';
    proof {
        let sub = text@.subrange(0, 7);
        assert(sub[0] == text@[0] && sub[1] == text@[1] && sub[2] == text@[2] && sub[3] == text@[3]
            && sub[4] == text@[4] && sub[5] == text@[5] && sub[6] == text@[6]);
        if hit {
            assert(sub =~= "magnet:"@);
        } else if sub == "magnet:"@ {
            assert(sub[0] == 'm' && sub[1] == 'a' && sub[2] == 'g' && sub[3] == 'n' && sub[4] == 'e'
                && sub[5] == 't' && sub[6] == ':');
            assert(false);
        }
    }
    hit
}

} // verus!
