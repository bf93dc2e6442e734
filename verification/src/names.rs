//! The French names of months and of days of the week.

use vstd::prelude::*;

verus! {

/// The name of month `month`, 1 for January up to 12 for December; nothing
/// for any other number.
pub open spec fn month_name_of(month: int) -> Option<Seq<char>> {
    if month == 1 {
        Some("Janvier"@)
    } else if month == 2 {
        Some("Février"@)
    } else if month == 3 {
        Some("Mars"@)
    } else if month == 4 {
        Some("Avril"@)
    } else if month == 5 {
        Some("Mai"@)
    } else if month == 6 {
        Some("Juin"@)
    } else if month == 7 {
        Some("Juillet"@)
    } else if month == 8 {
        Some("Août"@)
    } else if month == 9 {
        Some("Septembre"@)
    } else if month == 10 {
        Some("Octobre"@)
    } else if month == 11 {
        Some("Novembre"@)
    } else if month == 12 {
        Some("Décembre"@)
    } else {
        None
    }
}

/// The name of the day at place `weekday` of the week, 0 for Monday up to 6
/// for Sunday; nothing for any other number.
pub open spec fn day_name_of(weekday: int) -> Option<Seq<char>> {
    if weekday == 0 {
        Some("Lundi"@)
    } else if weekday == 1 {
        Some("Mardi"@)
    } else if weekday == 2 {
        Some("Mercredi"@)
    } else if weekday == 3 {
        Some("Jeudi"@)
    } else if weekday == 4 {
        Some("Vendredi"@)
    } else if weekday == 5 {
        Some("Samedi"@)
    } else if weekday == 6 {
        Some("Dimanche"@)
    } else {
        None
    }
}

/// The characters of an optional text.
pub open spec fn name_view(name: Option<&'static str>) -> Option<Seq<char>> {
    match name {
        Some(s) => Some(s@),
        None => None,
    }
}

/// The name of a month, given its number from 1 to 12.
pub fn month_name(month: u32) -> (name: Option<&'static str>)
    ensures
        name_view(name) == month_name_of(month as int),
        name is Some <==> 1 <= month <= 12,
{
    match month {
        1 => Some("Janvier"),
        2 => Some("Février"),
        3 => Some("Mars"),
        4 => Some("Avril"),
        5 => Some("Mai"),
        6 => Some("Juin"),
        7 => Some("Juillet"),
        8 => Some("Août"),
        9 => Some("Septembre"),
        10 => Some("Octobre"),
        11 => Some("Novembre"),
        12 => Some("Décembre"),
        _ => None,
    }
}

/// The name of a day of the week, given its place from 0 for Monday to 6
/// for Sunday.
pub fn day_name(weekday: u8) -> (name: Option<&'static str>)
    ensures
        name_view(name) == day_name_of(weekday as int),
        name is Some <==> weekday <= 6,
{
    match weekday {
        0 => Some("Lundi"),
        1 => Some("Mardi"),
        2 => Some("Mercredi"),
        3 => Some("Jeudi"),
        4 => Some("Vendredi"),
        5 => Some("Samedi"),
        6 => Some("Dimanche"),
        _ => None,
    }
}

/// Whether the day at place `weekday` of the week falls on the weekend.
pub open spec fn weekend(weekday: int) -> bool {
    weekday == 5 || weekday == 6
}

/// Whether a day of the week, given by its place from 0 for Monday, falls
/// on the weekend; such days are shown dimmed.
pub fn is_weekend(weekday: u8) -> (r: bool)
    ensures
        r == weekend(weekday as int),
{
    weekday == 5 || weekday == 6
}

} // verus!
