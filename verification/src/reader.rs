use vstd::prelude::*;

use crate::assoc::find_key;
use crate::assoc::first_key_idx;
use crate::assoc::keys_of;
use crate::assoc::str_keys;
use crate::error::ErrM;
use crate::error::Error;
use crate::value::pairs_v;
use crate::value::tv_clone;
use crate::value::TagValue;
use crate::value::Tv;

verus! {

/// The raw value of `tag` in a record: the value under the first entry
/// with that key, if the record is a mapping that holds it.
pub open spec fn tag_lookup(r: Tv, tag: Seq<char>) -> Option<Tv> {
    match r {
        Tv::Obj(entries) => {
            let i = first_key_idx(keys_of(entries), tag);
            if i < 0 {
                None
            } else {
                Some(entries[i].1)
            }
        },
        _ => None,
    }
}

/// Read a tag's raw value from a per-file record, without decoding.
/// Fails exactly when the tag is absent.
pub fn json_tag(record: &TagValue, tag: &str) -> (r: Result<TagValue, Error>)
    ensures
        tag_lookup(record.tv(), tag@) is Some ==> r is Ok && r->Ok_0.tv() == tag_lookup(
            record.tv(),
            tag@,
        )->0,
        tag_lookup(record.tv(), tag@) is None ==> r is Err && r->Err_0@ == ErrM::TagNotFound(tag@),
{
    match record {
        TagValue::Obj(entries) => {
            let key: String = tag.to_owned();
            proof {
                assert(keys_of(pairs_v(entries@)) =~= str_keys(entries@));
            }
            match find_key(entries, &key) {
                Some(i) => {
                    let e = &entries[i];
                    let out = tv_clone(&e.1);
                    proof {
                        assert(pairs_v(entries@)[i as int].1 == entries@[i as int].1.tv());
                    }
                    Ok(out)
                },
                None => Err(Error::tag_not_found(tag)),
            }
        },
        _ => Err(Error::tag_not_found(tag)),
    }
}

/// A type that a tag value can decode into. `decoded_of` says which
/// values decode and what they become; `decode_tag_value` realises
/// exactly that.
pub trait TagDecode: View + Sized {
    /// The decoded model, if `v` decodes into this type.
    spec fn decoded_of(v: Tv) -> Option<Self::V>;

    /// Decode a tag value; succeeds exactly when the model says so.
    fn decode_tag_value(v: &TagValue) -> (r: Option<Self>)
        ensures
            r is Some <==> Self::decoded_of(v.tv()) is Some,
            r is Some ==> Some(r->0@) == Self::decoded_of(v.tv()),
    ;
}

impl TagDecode for String {
    open spec fn decoded_of(v: Tv) -> Option<Seq<char>> {
        match v {
            Tv::Str(s) => Some(s),
            _ => None,
        }
    }

    fn decode_tag_value(v: &TagValue) -> (r: Option<String>) {
        match v {
            TagValue::Str(s) => Some(s.clone()),
            _ => None,
        }
    }
}

impl TagDecode for bool {
    open spec fn decoded_of(v: Tv) -> Option<bool> {
        match v {
            Tv::Bool(b) => Some(b),
            _ => None,
        }
    }

    fn decode_tag_value(v: &TagValue) -> (r: Option<bool>) {
        match v {
            TagValue::Bool(b) => Some(*b),
            _ => None,
        }
    }
}

impl TagDecode for i64 {
    open spec fn decoded_of(v: Tv) -> Option<i64> {
        match v {
            Tv::Num(n) => if i64::MIN <= n <= i64::MAX {
                Some(n as i64)
            } else {
                None
            },
            _ => None,
        }
    }

    fn decode_tag_value(v: &TagValue) -> (r: Option<i64>) {
        match v {
            TagValue::Num(n) => Some(*n),
            _ => None,
        }
    }
}

impl TagDecode for u64 {
    open spec fn decoded_of(v: Tv) -> Option<u64> {
        match v {
            Tv::Num(n) => if 0 <= n <= u64::MAX {
                Some(n as u64)
            } else {
                None
            },
            _ => None,
        }
    }

    fn decode_tag_value(v: &TagValue) -> (r: Option<u64>) {
        match v {
            TagValue::Num(n) => if *n >= 0 {
                Some(*n as u64)
            } else {
                None
            },
            _ => None,
        }
    }
}

impl TagDecode for u32 {
    open spec fn decoded_of(v: Tv) -> Option<u32> {
        match v {
            Tv::Num(n) => if 0 <= n <= u32::MAX {
                Some(n as u32)
            } else {
                None
            },
            _ => None,
        }
    }

    fn decode_tag_value(v: &TagValue) -> (r: Option<u32>) {
        match v {
            TagValue::Num(n) => if 0 <= *n && *n <= u32::MAX as i64 {
                Some(*n as u32)
            } else {
                None
            },
            _ => None,
        }
    }
}

impl TagDecode for TagValue {
    open spec fn decoded_of(v: Tv) -> Option<Tv> {
        Some(v)
    }

    fn decode_tag_value(v: &TagValue) -> (r: Option<TagValue>) {
        Some(tv_clone(v))
    }
}

/// Read a required tag and decode it into `T`. An absent tag is
/// `TagNotFound`; a present value that does not decode is a decode
/// error naming the tag.
pub fn read_tag<T: TagDecode>(record: &TagValue, tag: &str) -> (r: Result<T, Error>)
    ensures
        tag_lookup(record.tv(), tag@) is None ==> r is Err && r->Err_0@ == ErrM::TagNotFound(
            tag@,
        ),
        tag_lookup(record.tv(), tag@) is Some && T::decoded_of(tag_lookup(record.tv(), tag@)->0)
            is Some ==> r is Ok && Some(r->Ok_0@) == T::decoded_of(
            tag_lookup(record.tv(), tag@)->0,
        ),
        tag_lookup(record.tv(), tag@) is Some && T::decoded_of(tag_lookup(record.tv(), tag@)->0)
            is None ==> r is Err && r->Err_0@ is Decode && r->Err_0@->Decode_0 == tag@,
{
    match json_tag(record, tag) {
        Ok(v) => match T::decode_tag_value(&v) {
            Some(x) => Ok(x),
            None => Err(Error::decode_error(tag, "value does not decode to the requested type")),
        },
        Err(e) => Err(e),
    }
}

/// Read an optional tag and decode it into `T`. An absent tag is
/// success with no value; a present value must decode.
pub fn read_opt_tag<T: TagDecode>(record: &TagValue, tag: &str) -> (r: Result<Option<T>, Error>)
    ensures
        tag_lookup(record.tv(), tag@) is None ==> r is Ok && r->Ok_0 is None,
        tag_lookup(record.tv(), tag@) is Some && T::decoded_of(tag_lookup(record.tv(), tag@)->0)
            is Some ==> r is Ok && r->Ok_0 is Some && Some(r->Ok_0->0@) == T::decoded_of(
            tag_lookup(record.tv(), tag@)->0,
        ),
        tag_lookup(record.tv(), tag@) is Some && T::decoded_of(tag_lookup(record.tv(), tag@)->0)
            is None ==> r is Err && r->Err_0@ is Decode && r->Err_0@->Decode_0 == tag@,
{
    match json_tag(record, tag) {
        Ok(v) => match T::decode_tag_value(&v) {
            Some(x) => Ok(Some(x)),
            None => Err(Error::decode_error(tag, "value does not decode to the requested type")),
        },
        Err(_) => Ok(None),
    }
}

} // verus!
