//! Fixed-capacity collections of the `heapless` crate.
//!
//! A collection is opaque to the verifier, so what it holds is a named value of
//! it. The functions below call `heapless` and say what each call does to that
//! value.

use crate::device_config::DeviceEntry;
use crate::error::ringlog::LogEntry;
use vstd::prelude::*;
use vstd::utf8::encode_utf8;

verus! {

/// `heapless::Vec`.
#[verifier::external_type_specification]
#[verifier::external_body]
#[verifier::reject_recursive_types(T)]
pub struct ExHeaplessVec<T, const N: usize>(heapless::Vec<T, N>);

/// `heapless::String`.
#[verifier::external_type_specification]
#[verifier::external_body]
pub struct ExHeaplessString<const N: usize>(heapless::String<N>);

/// Items of a list of up to 64 point numbers.
pub uninterp spec fn points_held(v: heapless::Vec<u8, 64>) -> Seq<u8>;

/// Bytes of a response of up to 256 bytes.
pub uninterp spec fn response_held(v: heapless::Vec<u8, 256>) -> Seq<u8>;

/// Bytes of a frame of up to 512 bytes.
pub uninterp spec fn frame_held(v: heapless::Vec<u8, 512>) -> Seq<u8>;

/// Bytes of a send queue of up to 2048 bytes.
pub uninterp spec fn queue_held(v: heapless::Vec<u8, 2048>) -> Seq<u8>;

/// Words of a list of up to 128 words.
pub uninterp spec fn words_held(v: heapless::Vec<u16, 128>) -> Seq<u16>;

/// Words of a parameter list of up to 32 words.
pub uninterp spec fn params_held(v: heapless::Vec<u16, 32>) -> Seq<u16>;

/// Entries of a log of up to 100 entries.
pub uninterp spec fn log_held(v: heapless::Vec<LogEntry, 100>) -> Seq<LogEntry>;

/// Entries of a table of up to 32 devices.
pub uninterp spec fn devices_held(v: heapless::Vec<DeviceEntry, 32>) -> Seq<DeviceEntry>;

/// Characters of a line buffer of up to 512 bytes.
pub uninterp spec fn line_held(s: heapless::String<512>) -> Seq<char>;

/// A collection with its items in order.
pub trait Items<T> {
    spec fn items(&self) -> Seq<T>;
}

impl Items<u8> for heapless::Vec<u8, 64> {
    open spec fn items(&self) -> Seq<u8> {
        points_held(*self)
    }
}

impl Items<DeviceEntry> for heapless::Vec<DeviceEntry, 32> {
    open spec fn items(&self) -> Seq<DeviceEntry> {
        devices_held(*self)
    }
}

impl Items<u8> for heapless::Vec<u8, 256> {
    open spec fn items(&self) -> Seq<u8> {
        response_held(*self)
    }
}

impl Items<u8> for heapless::Vec<u8, 512> {
    open spec fn items(&self) -> Seq<u8> {
        frame_held(*self)
    }
}

impl Items<u8> for heapless::Vec<u8, 2048> {
    open spec fn items(&self) -> Seq<u8> {
        queue_held(*self)
    }
}

impl Items<u16> for heapless::Vec<u16, 128> {
    open spec fn items(&self) -> Seq<u16> {
        words_held(*self)
    }
}

impl Items<u16> for heapless::Vec<u16, 32> {
    open spec fn items(&self) -> Seq<u16> {
        params_held(*self)
    }
}

impl Items<LogEntry> for heapless::Vec<LogEntry, 100> {
    open spec fn items(&self) -> Seq<LogEntry> {
        log_held(*self)
    }
}

/// Whether `len` items fit in a collection of capacity `n`.
pub open spec fn fits(len: int, n: usize) -> bool {
    len <= n
}

/// `heapless::Vec::new`: an empty list of point numbers.
#[verifier::external_body]
pub(crate) fn new_points() -> (r: heapless::Vec<u8, 64>)
    ensures
        points_held(r) == Seq::<u8>::empty(),
{
    heapless::Vec::new()
}

/// `heapless::Vec::new`: an empty response.
#[verifier::external_body]
pub(crate) fn new_response() -> (r: heapless::Vec<u8, 256>)
    ensures
        response_held(r) == Seq::<u8>::empty(),
{
    heapless::Vec::new()
}

/// `heapless::Vec::new`: an empty frame.
#[verifier::external_body]
pub(crate) fn new_frame() -> (r: heapless::Vec<u8, 512>)
    ensures
        frame_held(r) == Seq::<u8>::empty(),
{
    heapless::Vec::new()
}

/// `heapless::Vec::new`: an empty send queue.
#[verifier::external_body]
pub(crate) fn new_queue() -> (r: heapless::Vec<u8, 2048>)
    ensures
        queue_held(r) == Seq::<u8>::empty(),
{
    heapless::Vec::new()
}

/// `heapless::Vec::new`: an empty word list.
#[verifier::external_body]
pub(crate) fn new_words() -> (r: heapless::Vec<u16, 128>)
    ensures
        words_held(r) == Seq::<u16>::empty(),
{
    heapless::Vec::new()
}

/// `heapless::Vec::new`: an empty parameter list.
#[verifier::external_body]
pub(crate) fn new_params() -> (r: heapless::Vec<u16, 32>)
    ensures
        params_held(r) == Seq::<u16>::empty(),
{
    heapless::Vec::new()
}

/// `heapless::Vec::new`: an empty log.
#[verifier::external_body]
pub(crate) fn new_log() -> (r: heapless::Vec<LogEntry, 100>)
    ensures
        log_held(r) == Seq::<LogEntry>::empty(),
{
    heapless::Vec::new()
}

/// `heapless::Vec::new`: an empty device table.
#[verifier::external_body]
pub(crate) fn new_devices() -> (r: heapless::Vec<DeviceEntry, 32>)
    ensures
        devices_held(r) == Seq::<DeviceEntry>::empty(),
{
    heapless::Vec::new()
}

/// `heapless::Vec::push`: appends the item, or hands it back where the list
/// already holds `N` items.
#[verifier::external_body]
pub(crate) fn try_push<T, const N: usize>(v: &mut heapless::Vec<T, N>, item: T) -> (r: Result<(), T>) where
    heapless::Vec<T, N>: Items<T>,

    ensures
        (r is Ok) == fits(old(v).items().len() as int + 1, N),
        r is Ok ==> final(v).items() == old(v).items().push(item),
        r is Err ==> r->Err_0 == item && final(v).items() == old(v).items(),
{
    v.push(item)
}

/// `heapless::Vec::extend_from_slice` of bytes: appends all of them, or none
/// where they do not fit.
#[verifier::external_body]
pub(crate) fn try_extend<const N: usize>(v: &mut heapless::Vec<u8, N>, other: &[u8]) -> (r: bool) where
    heapless::Vec<u8, N>: Items<u8>,

    ensures
        r == fits((old(v).items().len() + other@.len()) as int, N),
        r ==> final(v).items() == old(v).items() + other@,
        !r ==> final(v).items() == old(v).items(),
{
    v.extend_from_slice(other).is_ok()
}

/// `heapless::Vec::clear`: removes all items.
#[verifier::external_body]
pub(crate) fn wipe<T, const N: usize>(v: &mut heapless::Vec<T, N>) where heapless::Vec<T, N>: Items<T>
    ensures
        final(v).items() == Seq::<T>::empty(),
{
    v.clear();
}

/// `heapless::Vec::remove`: takes the item at `i` and moves the later ones up.
#[verifier::external_body]
pub(crate) fn take_at<T, const N: usize>(v: &mut heapless::Vec<T, N>, i: usize) -> (r: T) where
    heapless::Vec<T, N>: Items<T>,

    requires
        i < old(v).items().len(),
    ensures
        r == old(v).items()[i as int],
        final(v).items() == old(v).items().remove(i as int),
{
    v.remove(i)
}

/// `heapless::Vec::truncate`: keeps the first `len` items; a shorter list stays.
#[verifier::external_body]
pub(crate) fn shorten<T, const N: usize>(v: &mut heapless::Vec<T, N>, len: usize) where heapless::Vec<T, N>: Items<T>
    ensures
        final(v).items() == (if fits(old(v).items().len() as int, len) { old(v).items() } else { old(v).items().take(len as int) }),
{
    v.truncate(len);
}

/// `heapless::Vec::clone` of a response: the same bytes.
#[verifier::external_body]
pub(crate) fn copy_response(v: &heapless::Vec<u8, 256>) -> (r: heapless::Vec<u8, 256>)
    ensures
        response_held(r) == response_held(*v),
{
    v.clone()
}

/// `heapless::Vec::as_slice`: the items, at most `N` of them.
#[verifier::external_body]
pub(crate) fn slice_of<T, const N: usize>(v: &heapless::Vec<T, N>) -> (r: &[T]) where
    heapless::Vec<T, N>: Items<T>,

    ensures
        r@ == v.items(),
        fits(r@.len() as int, N),
{
    v.as_slice()
}

/// `heapless::Vec::as_mut_slice`: the items, to be changed in place.
#[verifier::external_body]
pub(crate) fn slice_mut<T, const N: usize>(v: &mut heapless::Vec<T, N>) -> (r: &mut [T]) where
    heapless::Vec<T, N>: Items<T>,

    ensures
        r@ == old(v).items(),
        final(v).items() == final(r)@,
{
    v.as_mut_slice()
}

/// `heapless::String::new`: an empty line buffer.
#[verifier::external_body]
pub(crate) fn new_line() -> (r: heapless::String<512>)
    ensures
        line_held(r) == Seq::<char>::empty(),
{
    heapless::String::new()
}

/// `heapless::String::push`: appends the character where its UTF-8 form still
/// fits.
#[verifier::external_body]
pub(crate) fn push_char(s: &mut heapless::String<512>, c: char) -> (r: bool)
    ensures
        r == fits(encode_utf8(line_held(*old(s)).push(c)).len() as int, 512),
        r ==> line_held(*final(s)) == line_held(*old(s)).push(c),
        !r ==> line_held(*final(s)) == line_held(*old(s)),
{
    s.push(c).is_ok()
}

/// `heapless::String::push_str`: appends all of the text, or none where it does
/// not fit.
#[verifier::external_body]
pub(crate) fn push_text(s: &mut heapless::String<512>, t: &str) -> (r: bool)
    ensures
        r == fits(encode_utf8(line_held(*old(s)) + t@).len() as int, 512),
        r ==> line_held(*final(s)) == line_held(*old(s)) + t@,
        !r ==> line_held(*final(s)) == line_held(*old(s)),
{
    s.push_str(t).is_ok()
}

/// `heapless::String::remove` at the start: takes the first character.
#[verifier::external_body]
pub(crate) fn take_first(s: &mut heapless::String<512>) -> (r: char)
    requires
        line_held(*old(s)).len() > 0,
    ensures
        r == line_held(*old(s))[0],
        line_held(*final(s)) == line_held(*old(s)).skip(1),
{
    s.remove(0)
}

/// `heapless::String::clear`: removes all characters.
#[verifier::external_body]
pub(crate) fn clear_line(s: &mut heapless::String<512>)
    ensures
        line_held(*final(s)) == Seq::<char>::empty(),
{
    s.clear();
}

/// `heapless::String::as_str`: the text.
#[verifier::external_body]
pub(crate) fn line_text(s: &heapless::String<512>) -> (r: &str)
    ensures
        r@ == line_held(*s),
{
    s.as_str()
}

} // verus!
