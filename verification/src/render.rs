//! Content rules for the presentation layer.
//!
//! The view itself is a stateless projection of engine state and stays
//! out of this crate; what lives here are the two content decisions it
//! needs: whether a message body is rendered as an image reference,
//! and which avatar a sender's name resolves to. The avatar lookup
//! falls back to a fixed placeholder when the sender is not in the
//! roster, instead of failing — roster and log are updated
//! independently, so a sender can legitimately be missing.

use vstd::prelude::*;
use crate::engine::{UserProfile, UserProfileView, avatar_url_spec, avatar_url};
use crate::text::{ascii, lit, bytes_eq, copy_bytes};

verus! {

/// Whether a message body names an image: it ends with `.gif`.
pub open spec fn is_image_body(body: Seq<u8>) -> bool {
    body.len() >= 4 && body.subrange(body.len() - 4, body.len() as int) == ascii(".gif"@)
}

/// Decides how a message body is rendered: an image reference when it
/// ends with `.gif`, literal text otherwise.
pub fn message_is_image(body: &Vec<u8>) -> (r: bool)
    ensures
        r == is_image_body(body@),
{
    if body.len() < 4 {
        return false;
    }
    let n = body.len();
    let mut tail: Vec<u8> = Vec::new();
    tail.push(body[n - 4]);
    tail.push(body[n - 3]);
    tail.push(body[n - 2]);
    tail.push(body[n - 1]);
    proof {
        assert(tail@ =~= body@.subrange(n - 4, n as int));
    }
    let gif = lit(".gif");
    bytes_eq(&tail, &gif)
}

/// The avatar shown for a sender with no roster entry.
pub open spec fn placeholder_avatar() -> Seq<u8> {
    avatar_url_spec(ascii("unknown"@))
}

/// The avatar the roster resolves a name to: the first entry with that
/// name, or the placeholder when there is none.
pub open spec fn avatar_lookup(users: Seq<UserProfileView>, name: Seq<u8>) -> Seq<u8>
    decreases users.len(),
{
    if users.len() == 0 {
        placeholder_avatar()
    } else if users[0].name == name {
        users[0].avatar
    } else {
        avatar_lookup(users.drop_first(), name)
    }
}

/// Resolves a sender's avatar against the roster, falling back to the
/// placeholder instead of failing when the sender is absent.
pub fn avatar_for(users: &Vec<UserProfile>, name: &Vec<u8>) -> (r: Vec<u8>)
    ensures
        r@ == avatar_lookup(users.deep_view(), name@),
{
    let ghost all = users.deep_view();
    let mut i: usize = 0;
    proof {
        assert(all.skip(0) =~= all);
    }
    while i < users.len()
        invariant
            i <= users.len(),
            all == users.deep_view(),
            avatar_lookup(all, name@) == avatar_lookup(all.skip(i as int), name@),
        decreases users.len() - i,
    {
        if bytes_eq(&users[i].name, name) {
            let found = copy_bytes(&users[i].avatar);
            proof {
                assert(all.skip(i as int)[0] =~~= all[i as int]);
            }
            return found;
        }
        proof {
            assert(all.skip(i as int)[0] =~~= all[i as int]);
            assert(all.skip(i as int).drop_first() =~= all.skip(i as int + 1));
        }
        i += 1;
    }
    proof {
        assert(all.skip(users.len() as int) =~= Seq::<UserProfileView>::empty());
    }
    let unknown = lit("unknown");
    avatar_url(&unknown)
}

} // verus!
