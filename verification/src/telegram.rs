//! The parts of Telegram's Bot API updates that the bot reads.
use vstd::prelude::*;

use crate::order::opt_view;

verus! {

/// A reply of the Bot API.
#[derive(Debug)]
pub struct ApiResponse<T> {
    pub ok: bool,
    pub result: T,
}

#[derive(Debug)]
pub struct Update {
    pub update_id: i64,
    pub message: Option<Message>,
}

#[derive(Debug)]
pub struct Message {
    pub message_id: i64,
    pub chat: Chat,
    pub text: Option<String>,
    pub photo: Option<Vec<PhotoSize>>,
}

#[derive(Debug, Clone, Copy)]
pub struct Chat {
    pub id: i64,
}

/// One size of a sent photo.
#[derive(Debug, Clone)]
pub struct PhotoSize {
    pub file_id: String,
    pub width: i64,
    pub height: i64,
    pub file_size: Option<i64>,
}

/// How large a photo is: its file size, or its area where the size is unknown.
pub open spec fn photo_key(p: PhotoSize) -> int {
    match p.file_size {
        Some(s) => s as int,
        None => p.width * p.height,
    }
}

/// The photo size that `Iterator::max_by_key` picks: the largest, the last
/// of equally large ones.
pub open spec fn best_photo(ps: Seq<PhotoSize>) -> int
    decreases ps.len(),
{
    if ps.len() <= 1 {
        0
    } else {
        let b = best_photo(ps.drop_last());
        if photo_key(ps.last()) >= photo_key(ps[b]) {
            ps.len() - 1
        } else {
            b
        }
    }
}

/// The area of every size fits in `i64` (it is computed for every size,
/// whether or not its file size is known).
pub open spec fn areas_fit(ps: Seq<PhotoSize>) -> bool {
    forall|i: int| 0 <= i < ps.len() ==> i64::MIN <= (#[trigger] ps[i]).width * ps[i].height <= i64::MAX
}


/// The file id of the largest size of a photo, if there is one.
pub open spec fn largest_photo(photos: Option<Vec<PhotoSize>>) -> Option<Seq<char>> {
    match photos {
        None => None,
        Some(ps) => if ps.len() == 0 {
            None
        } else {
            Some(ps@[best_photo(ps@)].file_id@)
        },
    }
}

/// The file id of the largest size of a photo.
pub fn largest_photo_file_id(photos: &Option<Vec<PhotoSize>>) -> (r: Option<String>)
    requires
        photos matches Some(ps) ==> areas_fit(ps@),
    ensures
        opt_view(r) == largest_photo(*photos),
        match photos {
            None => r is None,
            Some(ps) => if ps.len() == 0 {
                r is None
            } else {
                r matches Some(id) && id@ == ps@[best_photo(ps@)].file_id@
            },
        },
{
    let ps = match photos {
        None => {
            return None;
        },
        Some(ps) => ps,
    };
    if ps.len() == 0 {
        return None;
    }
    let mut best: usize = 0;
    let mut best_key: i64 = match ps[0].file_size {
        Some(s) => s,
        None => ps[0].width * ps[0].height,
    };
    let mut i: usize = 1;
    assert(ps@.take(1).len() == 1);
    while i < ps.len()
        invariant
            1 <= i <= ps.len(),
            areas_fit(ps@),
            best < i,
            best as int == best_photo(ps@.take(i as int)),
            best_key as int == photo_key(ps@[best as int]),
        decreases ps.len() - i,
    {
        assert(ps@.take(i + 1).drop_last() =~= ps@.take(i as int));
        assert(ps@.take(i as int)[best as int] == ps@[best as int]);
        let key: i64 = match ps[i].file_size {
            Some(s) => s,
            None => ps[i].width * ps[i].height,
        };
        if key >= best_key {
            best = i;
            best_key = key;
        }
        i = i + 1;
    }
    assert(ps@.take(ps.len() as int) =~= ps@);
    Some(ps[best].file_id.clone())
}

} // verus!
