//! The stand-alone capturer, which publishes the screen to the stream server.

use vstd::prelude::*;
use vstd::string::{StrSliceExecFns, StringExecFns};

verus! {

/// `s` without the slashes at its end.
pub open spec fn without_trailing_slashes(s: Seq<char>) -> Seq<char>
    decreases s.len(),
{
    if s.len() > 0 && s.last() == '/' {
        without_trailing_slashes(s.drop_last())
    } else {
        s
    }
}

/// The address that a peer publishes to: its id behind the stream url.
pub fn publisher_url(stream_url: &str, peer_id: &str) -> (r: String)
    ensures
        r@ == without_trailing_slashes(stream_url@) + seq!['/'] + peer_id@,
{
    let mut n = stream_url.unicode_len();
    assert(stream_url@.take(n as int) =~= stream_url@);
    while n > 0 && stream_url.get_char(n - 1) == '/'
        invariant
            n <= stream_url@.len(),
            without_trailing_slashes(stream_url@.take(n as int)) == without_trailing_slashes(
                stream_url@,
            ),
        decreases n,
    {
        assert(stream_url@.take(n as int).drop_last() =~= stream_url@.take(n - 1));
        n -= 1;
    }
    let mut url = stream_url.substring_char(0, n).to_owned();
    assert(url@ =~= stream_url@.take(n as int));
    url.append("/");
    url.append(peer_id);
    proof {
        reveal_strlit("/");
        assert("/"@ =~= seq!['/']);
    }
    url
}

/// Only slashes are cut off, and none is left at the end.
pub proof fn law_only_trailing_slashes_go(s: Seq<char>)
    ensures
        without_trailing_slashes(s).len() <= s.len(),
        without_trailing_slashes(s) == s.take(without_trailing_slashes(s).len() as int),
        forall|i: int| without_trailing_slashes(s).len() <= i < s.len() ==> #[trigger] s[i] == '/',
        without_trailing_slashes(s).len() > 0 ==> without_trailing_slashes(s).last() != '/',
    decreases s.len(),
{
    if s.len() > 0 && s.last() == '/' {
        law_only_trailing_slashes_go(s.drop_last());
        let n = without_trailing_slashes(s).len() as int;
        assert(s.drop_last().take(n) =~= s.take(n));
        assert forall|i: int| n <= i < s.len() implies #[trigger] s[i] == '/' by {
            if i < s.len() - 1 {
                assert(s.drop_last()[i] == s[i]);
            }
        }
    } else {
        assert(s.take(s.len() as int) =~= s);
    }
}

/// The address is what is in front of the url's trailing slashes, one slash,
/// and the peer's id, for however many slashes there were.
pub proof fn law_address_of_a_peer(stream_url: &str, peer_id: &str, r: String, slashes: nat)
    requires
        slashes <= stream_url@.len(),
        forall|i: int|
            stream_url@.len() - slashes <= i < stream_url@.len() ==> #[trigger] stream_url@[i]
                == '/',
        slashes < stream_url@.len() ==> stream_url@[stream_url@.len() - slashes - 1] != '/',
        call_ensures(publisher_url, (stream_url, peer_id), r),
    ensures
        r@ == stream_url@.take(stream_url@.len() - slashes) + seq!['/'] + peer_id@,
{
    law_only_trailing_slashes_go(stream_url@);
    let s = stream_url@;
    let kept = without_trailing_slashes(s).len() as int;
    let n = s.len() - slashes;
    if kept < n {
        assert(s[n - 1] == '/');
    } else if kept > n {
        assert(without_trailing_slashes(s).last() == s[kept - 1]);
    }
}

} // verus!
