//! Pages of an ordered listing.
//!
//! A listing walks the records of a store in key order, forwards or
//! backwards, skips `offset` of them and hands out at most `limit`.

use vstd::prelude::*;
use crate::model::Direction;

verus! {

/// The records in the order in which a cursor of the given direction meets
/// them.
pub open spec fn directed<T>(records: Seq<T>, direction: Direction) -> Seq<T> {
    match direction {
        Direction::Next => records,
        Direction::Prev => records.reverse(),
    }
}

/// Where a page starts among `len` records: behind the `offset` records that
/// are skipped, or at the end when there are not that many.
pub open spec fn page_start(len: nat, offset: Option<u32>) -> int {
    match offset {
        Some(skipped) if skipped < len => skipped as int,
        Some(_) => len as int,
        None => 0,
    }
}

/// Where a page ends among `len` records: `limit` records behind its start,
/// or at the end when there are fewer left or no limit is given.
pub open spec fn page_end(len: nat, limit: Option<u32>, offset: Option<u32>) -> int {
    let start = page_start(len, offset);
    match limit {
        Some(most) if start + most < len => start + most,
        _ => len as int,
    }
}

/// The page that a listing of `records` gives.
pub open spec fn page<T>(
    records: Seq<T>,
    limit: Option<u32>,
    offset: Option<u32>,
    direction: Direction,
) -> Seq<T> {
    directed(records, direction).subrange(
        page_start(records.len(), offset),
        page_end(records.len(), limit, offset),
    )
}

/// The first `pages` pages of `length` records each, one after the other,
/// in ascending order.
pub open spec fn leading_pages<T>(records: Seq<T>, length: u32, pages: nat) -> Seq<T>
    decreases pages,
{
    if pages == 0 {
        Seq::empty()
    } else {
        let before = (pages - 1) as nat;
        leading_pages(records, length, before) + page(
            records,
            Some(length),
            Some((before * length) as u32),
            Direction::Next,
        )
    }
}

/// The first `pages` ascending pages make up the listing's first
/// `pages * length` records: none is left out, none comes twice.  Only the
/// offset of the last page has to be one that a listing can be asked for.
pub proof fn lemma_leading_pages<T>(records: Seq<T>, length: u32, pages: nat)
    requires
        pages > 0 ==> (pages - 1) * length <= u32::MAX,
    ensures
        leading_pages(records, length, pages) == records.take(
            if pages * length < records.len() {
                pages * length
            } else {
                records.len() as int
            },
        ),
    decreases pages,
{
    if pages == 0 {
        assert(pages * length == 0) by (nonlinear_arith)
            requires
                pages == 0,
        ;
    } else {
        let before = (pages - 1) as nat;
        let from = before * length;
        let to = pages * length;
        assert(from + length == to && 0 <= from) by (nonlinear_arith)
            requires
                before + 1 == pages,
                from == before * length,
                to == pages * length,
        ;
        if before > 0 {
            assert((before - 1) * length <= from) by (nonlinear_arith)
                requires
                    from == before * length,
                    before > 0,
                    length >= 0,
            ;
        }
        lemma_leading_pages(records, length, before);
        let last = page(records, Some(length), Some(from as u32), Direction::Next);
        assert(leading_pages(records, length, pages) == leading_pages(records, length, before)
            + last);
    }
}

/// Pages that reach the end of the listing give back the listing itself.
pub proof fn lemma_pages_cover<T>(records: Seq<T>, length: u32, pages: nat)
    requires
        pages > 0 ==> (pages - 1) * length <= u32::MAX,
        pages * length >= records.len(),
    ensures
        leading_pages(records, length, pages) == records,
{
    lemma_leading_pages(records, length, pages);
}

/// Computes the bounds of a page among `len` records.
pub fn page_bounds(len: usize, limit: Option<u32>, offset: Option<u32>) -> (bounds: (usize, usize))
    ensures
        bounds.0 == page_start(len as nat, offset),
        bounds.1 == page_end(len as nat, limit, offset),
{
    let start: usize = match offset {
        Some(skipped) => if (skipped as usize) < len {
            skipped as usize
        } else {
            len
        },
        None => 0,
    };
    let end: usize = match limit {
        Some(most) => if (most as usize) < len - start {
            start + most as usize
        } else {
            len
        },
        None => len,
    };
    (start, end)
}

/// Where among `len` ascending records a cursor of the given direction
/// stands after `steps` steps.
pub open spec fn cursor_position(len: nat, direction: Direction, steps: int) -> int {
    match direction {
        Direction::Next => steps,
        Direction::Prev => len - 1 - steps,
    }
}

/// Computes the position of a cursor after `steps` steps.
pub fn cursor_at(len: usize, direction: Direction, steps: usize) -> (position: usize)
    requires
        steps < len,
    ensures
        position == cursor_position(len as nat, direction, steps as int),
{
    match direction {
        Direction::Next => steps,
        Direction::Prev => len - 1 - steps,
    }
}

} // verus!
