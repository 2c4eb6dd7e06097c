use vstd::prelude::*;

verus! {

/// The index of the first item shown on page `page_num` (pages count from 1).
pub open spec fn page_start(page_num: int, page_size: int) -> int {
    (page_num - 1) * page_size
}

/// The index one past the last item shown on page `page_num` of a list of `len` items.
pub open spec fn page_end(len: int, page_num: int, page_size: int) -> int {
    let end = page_start(page_num, page_size) + page_size;
    if end < len { end } else { len }
}

/// The items shown on page `page_num`.
pub open spec fn page_of<T>(items: Seq<T>, page_num: int, page_size: int) -> Seq<T> {
    items.subrange(page_start(page_num, page_size), page_end(items.len() as int, page_num, page_size))
}

/// Whether `page_num` names a page that the list can show: numbering starts at 1 and the
/// page may start at the end of the list, but not after it.
pub open spec fn page_in_range(len: int, page_num: int, page_size: int) -> bool {
    &&& page_num >= 1
    &&& page_start(page_num, page_size) <= len
}

/// Pages `1..=k` of the list, one after the other.
pub open spec fn pages_upto<T>(items: Seq<T>, page_size: int, k: nat) -> Seq<T>
    decreases k,
{
    if k == 0 {
        Seq::empty()
    } else {
        pages_upto(items, page_size, (k - 1) as nat) + page_of(items, k as int, page_size)
    }
}

/// The pages tile the list: pages `1..=k` together are its first `k * page_size` items, or
/// all of them where the list is shorter, so no item is shown twice or skipped.
pub proof fn lemma_pages_tile<T>(items: Seq<T>, page_size: int, k: nat)
    requires
        page_size > 0,
        k >= 1 ==> page_in_range(items.len() as int, k as int, page_size),
    ensures
        pages_upto(items, page_size, k) == items.take(
            if k * page_size < items.len() {
                k * page_size
            } else {
                items.len() as int
            },
        ),
    decreases k,
{
    if k == 0 {
        assert(items.take(0) =~= Seq::<T>::empty());
    } else {
        let km = (k - 1) as nat;
        assert((k - 1) * page_size + page_size == k * page_size) by (nonlinear_arith);
        assert(page_start(k as int, page_size) == km * page_size);
        if km >= 1 {
            assert((km - 1) * page_size <= km * page_size) by (nonlinear_arith)
                requires
                    page_size > 0,
                    km >= 1,
            ;
        }
        lemma_pages_tile(items, page_size, km);
        assert(km * page_size <= items.len());
        let end = if k * page_size < items.len() {
            k * page_size
        } else {
            items.len() as int
        };
        assert(items.take(km * page_size) + items.subrange(km * page_size, end) =~= items.take(
            end,
        ));
    }
}

/// Cuts one page out of `items` and returns it together with the total number of items.
pub fn paginate<T>(items: Vec<T>, page_num: usize, page_size: usize) -> (res: (Vec<T>, usize))
    requires
        page_in_range(items@.len() as int, page_num as int, page_size as int),
        page_start(page_num as int, page_size as int) + page_size <= usize::MAX,
    ensures
        res.0@ == page_of(items@, page_num as int, page_size as int),
        res.1 == items@.len(),
{
    let total = items.len();
    let start = (page_num - 1) * page_size;
    let end = start + page_size;
    let end = if end < total { end } else { total };
    let ghost all = items@;
    let mut items = items;
    let mut page = items.split_off(start);
    page.truncate(end - start);
    assert(page@ =~= page_of(all, page_num as int, page_size as int));
    (page, total)
}

} // verus!
