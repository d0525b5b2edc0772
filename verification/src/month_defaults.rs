//! The month names used when the configuration gives none: Spanish.
use vstd::prelude::*;

use crate::daily_folder::template::month_key;
use crate::month_names::MonthNames;

verus! {

/// The Spanish month names by two-digit key.
pub open spec fn spanish_month_names() -> Map<Seq<char>, Seq<char>> {
    Map::empty()
        .insert("01"@, "enero"@)
        .insert("02"@, "febrero"@)
        .insert("03"@, "marzo"@)
        .insert("04"@, "abril"@)
        .insert("05"@, "mayo"@)
        .insert("06"@, "junio"@)
        .insert("07"@, "julio"@)
        .insert("08"@, "agosto"@)
        .insert("09"@, "septiembre"@)
        .insert("10"@, "octubre"@)
        .insert("11"@, "noviembre"@)
        .insert("12"@, "diciembre"@)
}

/// The Spanish table names every month from 1 to 12, and nothing else.
pub proof fn lemma_spanish_names_complete()
    ensures
        forall|m: int| 1 <= m <= 12 ==> #[trigger] spanish_month_names().dom().contains(month_key(m)),
        forall|k: Seq<char>| #[trigger] spanish_month_names().dom().contains(k) ==> exists|m: int|
            1 <= m <= 12 && k == month_key(m),
{
    reveal_strlit("01");
    reveal_strlit("02");
    reveal_strlit("03");
    reveal_strlit("04");
    reveal_strlit("05");
    reveal_strlit("06");
    reveal_strlit("07");
    reveal_strlit("08");
    reveal_strlit("09");
    reveal_strlit("10");
    reveal_strlit("11");
    reveal_strlit("12");
    assert("01"@ =~= month_key(1));
    assert("02"@ =~= month_key(2));
    assert("03"@ =~= month_key(3));
    assert("04"@ =~= month_key(4));
    assert("05"@ =~= month_key(5));
    assert("06"@ =~= month_key(6));
    assert("07"@ =~= month_key(7));
    assert("08"@ =~= month_key(8));
    assert("09"@ =~= month_key(9));
    assert("10"@ =~= month_key(10));
    assert("11"@ =~= month_key(11));
    assert("12"@ =~= month_key(12));
    assert forall|m: int| 1 <= m <= 12 implies #[trigger] spanish_month_names().dom().contains(
        month_key(m),
    ) by {
        if m == 1 {} else if m == 2 {} else if m == 3 {} else if m == 4 {} else if m == 5 {}
        else if m == 6 {} else if m == 7 {} else if m == 8 {} else if m == 9 {}
        else if m == 10 {} else if m == 11 {} else {}
    }
    assert forall|k: Seq<char>| #[trigger] spanish_month_names().dom().contains(k) implies exists|m: int|
        1 <= m <= 12 && k == month_key(m) by {
        if k == "01"@ { assert(k == month_key(1)); }
        else if k == "02"@ { assert(k == month_key(2)); }
        else if k == "03"@ { assert(k == month_key(3)); }
        else if k == "04"@ { assert(k == month_key(4)); }
        else if k == "05"@ { assert(k == month_key(5)); }
        else if k == "06"@ { assert(k == month_key(6)); }
        else if k == "07"@ { assert(k == month_key(7)); }
        else if k == "08"@ { assert(k == month_key(8)); }
        else if k == "09"@ { assert(k == month_key(9)); }
        else if k == "10"@ { assert(k == month_key(10)); }
        else if k == "11"@ { assert(k == month_key(11)); }
        else { assert(k == month_key(12)); }
    }
}

/// Builds the Spanish month-name table.
pub fn spanish_month_table() -> (r: MonthNames)
    ensures
        r@ == spanish_month_names(),
        forall|m: int| 1 <= m <= 12 ==> #[trigger] r@.dom().contains(month_key(m)),
{
    let mut m = MonthNames::new();
    m.insert("01".to_owned(), "enero".to_owned());
    m.insert("02".to_owned(), "febrero".to_owned());
    m.insert("03".to_owned(), "marzo".to_owned());
    m.insert("04".to_owned(), "abril".to_owned());
    m.insert("05".to_owned(), "mayo".to_owned());
    m.insert("06".to_owned(), "junio".to_owned());
    m.insert("07".to_owned(), "julio".to_owned());
    m.insert("08".to_owned(), "agosto".to_owned());
    m.insert("09".to_owned(), "septiembre".to_owned());
    m.insert("10".to_owned(), "octubre".to_owned());
    m.insert("11".to_owned(), "noviembre".to_owned());
    m.insert("12".to_owned(), "diciembre".to_owned());
    assert(m@ =~= spanish_month_names());
    proof {
        lemma_spanish_names_complete();
    }
    m
}

} // verus!
