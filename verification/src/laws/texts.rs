//! What numbers and lists read like, and how the items of a seed are listed.

use crate::seed_page::SeedHeaderTemplate;
use crate::settings::ItemCount;
use crate::text::{decimal_string, join};
use crate::{seed_page, text};
use vstd::prelude::*;

verus! {

/// The number that digits stand for in base ten.
pub open spec fn number(digits: Seq<char>) -> int
    decreases digits.len(),
{
    if digits.len() == 0 {
        0
    } else {
        10 * number(digits.drop_last()) + (digits.last() as int - '0' as int)
    }
}

/// There are digits and nothing else, and no zero in front of others.
pub open spec fn is_decimal(digits: Seq<char>) -> bool {
    &&& digits.len() > 0
    &&& forall|i: int| 0 <= i < digits.len() ==> '0' <= #[trigger] digits[i] <= '9'
    &&& digits.len() > 1 ==> digits[0] != '0'
}

proof fn lemma_decimal(n: nat)
    ensures
        number(text::decimal(n)) == n,
        is_decimal(text::decimal(n)),
        n > 0 ==> text::decimal(n)[0] != '0',
    decreases n,
{
    let digits = text::decimal(n);
    if n < 10 {
        assert(digits.drop_last() =~= Seq::<char>::empty());
        assert(number(digits.drop_last()) == 0);
    } else {
        lemma_decimal(n / 10);
        assert(digits.drop_last() =~= text::decimal(n / 10));
        assert(digits.last() == text::digit(n % 10));
        assert(forall|i: int|
            0 <= i < digits.len() - 1 ==> #[trigger] digits[i] == text::decimal(n / 10)[i]);
    }
}

/// A number that is written out is read back from its digits, which have no zeros in front.
pub proof fn numbers_are_read_back(n: usize, s: String)
    requires
        call_ensures(decimal_string, (n,), s),
    ensures
        number(s@) == n,
        is_decimal(s@),
{
    lemma_decimal(n as nat);
}

/// Joining one string more: the first one stands alone, each further one follows the separator.
pub proof fn joining_goes_on(
    pieces: Vec<String>,
    more: Vec<String>,
    separator: &str,
    s: String,
    t: String,
)
    requires
        call_ensures(join, (&pieces, separator), s),
        call_ensures(join, (&more, separator), t),
        more@.len() == pieces@.len() + 1,
        forall|i: int| 0 <= i < pieces@.len() ==> (#[trigger] more@[i])@ == pieces@[i]@,
    ensures
        pieces@.len() == 0 ==> s@.len() == 0 && t@ == more@[0]@,
        pieces@.len() > 0 ==> t@ == s@ + separator@ + more@[more@.len() - 1]@,
{
    assert(text::texts(more@).drop_last() =~= text::texts(pieces@));
}

/// Listing one item more.
proof fn lemma_one_more(items: Seq<ItemCount>, item: ItemCount, skip_absent: bool)
    ensures
        ({
            let s = text::joined(seed_page::item_labels(items, skip_absent), ", "@);
            let t = text::joined(seed_page::item_labels(items.push(item), skip_absent), ", "@);
            let is_first = seed_page::item_labels(items, skip_absent).len() == 0;
            &&& is_first ==> s.len() == 0
            &&& skip_absent && item.count == 0 ==> t == s
            &&& !(skip_absent && item.count == 0) ==> t == if is_first {
                seed_page::item_label(item)
            } else {
                s + ", "@ + seed_page::item_label(item)
            }
        }),
{
    assert(items.push(item).drop_last() =~= items);
    let before = seed_page::item_labels(items, skip_absent);
    let after = before.push(seed_page::item_label(item));
    assert(after.drop_last() =~= before);
}

/// Something is listed as soon as there is an item that is not left out.
proof fn lemma_is_first(items: Seq<ItemCount>, skip_absent: bool)
    ensures
        seed_page::item_labels(items, skip_absent).len() == 0 <==> forall|i: int|
            0 <= i < items.len() ==> skip_absent && (#[trigger] items[i]).count == 0,
    decreases items.len(),
{
    if items.len() > 0 {
        let rest = items.drop_last();
        lemma_is_first(rest, skip_absent);
        assert(forall|i: int| 0 <= i < rest.len() ==> #[trigger] rest[i] == items[i]);
        let last = items[items.len() - 1];
        if seed_page::item_labels(items, skip_absent).len() == 0 {
            assert forall|i: int| 0 <= i < items.len() implies skip_absent && (
            #[trigger] items[i]).count == 0 by {
                if i < rest.len() {
                    assert(rest[i].count == 0);
                }
            }
        }
    }
}

/// The text of the item pool lists its items one after another, with a comma and a blank between
/// them. An item is listed by its name, and where there is more than one copy the number of copies
/// follows in brackets: the digits between the brackets read as that number.
pub proof fn the_pool_is_listed_item_by_item(
    a: SeedHeaderTemplate,
    b: SeedHeaderTemplate,
    item: ItemCount,
    s: String,
    t: String,
)
    requires
        call_ensures(SeedHeaderTemplate::item_pool_strs, (&a,), s),
        call_ensures(SeedHeaderTemplate::item_pool_strs, (&b,), t),
        b.settings.item_progression_settings.item_pool@
            == a.settings.item_progression_settings.item_pool@.push(item),
    ensures
        ({
            let is_first = a.settings.item_progression_settings.item_pool@.len() == 0;
            let before = if is_first {
                Seq::<char>::empty()
            } else {
                s@ + ", "@
            };
            &&& is_first ==> s@.len() == 0
            &&& item.count <= 1 ==> t@ == before + item.item@
            &&& item.count > 1 ==> exists|digits: Seq<char>|
                #![trigger number(digits)]
                number(digits) == item.count && is_decimal(digits) && t@ == before + item.item@
                    + " ("@ + digits + ")"@
        }),
{
    let items = a.settings.item_progression_settings.item_pool@;
    lemma_one_more(items, item, false);
    lemma_is_first(items, false);
    if items.len() > 0 {
        assert(items[0].count >= 0);
    }
    let before = if items.len() == 0 {
        Seq::<char>::empty()
    } else {
        s@ + ", "@
    };
    assert(t@ =~= before + seed_page::item_label(item));
    if item.count > 1 {
        let digits = text::decimal(item.count as nat);
        lemma_decimal(item.count as nat);
        assert(t@ =~= before + item.item@ + " ("@ + digits + ")"@);
    }
}

/// The text of the starting items lists them in the same way as the pool, but leaves out those of
/// which there is no copy.
pub proof fn starting_items_are_listed_one_by_one(
    a: SeedHeaderTemplate,
    b: SeedHeaderTemplate,
    item: ItemCount,
    s: String,
    t: String,
)
    requires
        call_ensures(SeedHeaderTemplate::starting_items_strs, (&a,), s),
        call_ensures(SeedHeaderTemplate::starting_items_strs, (&b,), t),
        b.settings.item_progression_settings.starting_items@
            == a.settings.item_progression_settings.starting_items@.push(item),
    ensures
        ({
            let items = a.settings.item_progression_settings.starting_items@;
            let is_first = forall|i: int|
                0 <= i < items.len() ==> (#[trigger] items[i]).count == 0;
            let before = if is_first {
                Seq::<char>::empty()
            } else {
                s@ + ", "@
            };
            &&& is_first ==> s@.len() == 0
            &&& item.count == 0 ==> t@ == s@
            &&& item.count == 1 ==> t@ == before + item.item@
            &&& item.count > 1 ==> exists|digits: Seq<char>|
                #![trigger number(digits)]
                number(digits) == item.count && is_decimal(digits) && t@ == before + item.item@
                    + " ("@ + digits + ")"@
        }),
{
    let items = a.settings.item_progression_settings.starting_items@;
    lemma_one_more(items, item, true);
    lemma_is_first(items, true);
    let is_first = forall|i: int| 0 <= i < items.len() ==> (#[trigger] items[i]).count == 0;
    let before = if is_first {
        Seq::<char>::empty()
    } else {
        s@ + ", "@
    };
    if item.count > 0 {
        assert(t@ =~= before + seed_page::item_label(item));
    }
    if item.count > 1 {
        let digits = text::decimal(item.count as nat);
        lemma_decimal(item.count as nat);
        assert(t@ =~= before + item.item@ + " ("@ + digits + ")"@);
    }
}

/// Two lists that agree but for the number of copies of their last item differ, where either
/// number is more than one.
pub proof fn numbers_of_copies_are_told_apart(
    a: SeedHeaderTemplate,
    b: SeedHeaderTemplate,
    before: Seq<ItemCount>,
    x: ItemCount,
    y: ItemCount,
    s: String,
    t: String,
)
    requires
        call_ensures(SeedHeaderTemplate::item_pool_strs, (&a,), s) && call_ensures(
            SeedHeaderTemplate::item_pool_strs,
            (&b,),
            t,
        ),
        a.settings.item_progression_settings.item_pool@ == before.push(x),
        b.settings.item_progression_settings.item_pool@ == before.push(y),
        x.item@ == y.item@,
        x.count != y.count,
        x.count > 1 || y.count > 1,
    ensures
        s@ != t@,
{
    lemma_one_more(before, x, false);
    lemma_one_more(before, y, false);
    lemma_decimal(x.count as nat);
    lemma_decimal(y.count as nat);
    let dx = text::decimal(x.count as nat);
    let dy = text::decimal(y.count as nat);
    let head = if seed_page::item_labels(before, false).len() == 0 {
        x.item@
    } else {
        text::joined(seed_page::item_labels(before, false), ", "@) + ", "@ + x.item@
    };
    let sx = if x.count > 1 {
        head + " ("@ + dx + ")"@
    } else {
        head
    };
    let sy = if y.count > 1 {
        head + " ("@ + dy + ")"@
    } else {
        head
    };
    assert(s@ =~= sx);
    assert(t@ =~= sy);
    reveal_strlit(" (");
    reveal_strlit(")");
    if s@ == t@ && x.count > 1 && y.count > 1 {
        let n = (head + " ("@).len() as int;
        assert(sx.len() == n + dx.len() + 1 && sy.len() == n + dy.len() + 1);
        assert(sx.subrange(n, n + dx.len()) =~= dx);
        assert(sy.subrange(n, n + dy.len()) =~= dy);
        assert(number(dx) == number(dy));
    }
}

} // verus!
