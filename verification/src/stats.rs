//! The calendar of the listening statistics: which month is shown, its days
//! and their date keys ("YYYY-MM-DD"), and the years offered.
use vstd::prelude::*;
use crate::text;

verus! {

/// The year and month shown: the selected ones, else the current year and,
/// for the current year, the current month (else December).
pub open spec fn shown_period(selected_year: Option<i32>, selected_month: Option<u32>, current_year: i32, current_month: u32) -> (i32, u32) {
    let y = match selected_year {
        Some(v) => v,
        None => current_year,
    };
    let m = match selected_month {
        Some(v) => v,
        None => if y == current_year {
            current_month
        } else {
            12
        },
    };
    (y, m)
}

/// The year and month shown.
pub fn stats_period(selected_year: Option<i32>, selected_month: Option<u32>, current_year: i32, current_month: u32) -> (r: (i32, u32))
    ensures
        r == shown_period(selected_year, selected_month, current_year, current_month),
{
    let y = match selected_year {
        Some(v) => v,
        None => current_year,
    };
    let m = match selected_month {
        Some(v) => v,
        None => if y == current_year {
            current_month
        } else {
            12
        },
    };
    (y, m)
}

/// Whether `y` is a leap year of the Gregorian calendar.
pub open spec fn leap_year(y: int) -> bool {
    (y % 4 == 0 && y % 100 != 0) || y % 400 == 0
}

/// The days of month `m` of year `y` (30 for a month number out of range).
pub open spec fn month_length(y: int, m: u32) -> u32 {
    if m == 1 || m == 3 || m == 5 || m == 7 || m == 8 || m == 10 || m == 12 {
        31
    } else if m == 4 || m == 6 || m == 9 || m == 11 {
        30
    } else if m == 2 {
        if leap_year(y) {
            29
        } else {
            28
        }
    } else {
        30
    }
}

/// The days of month `m` of year `y`.
pub fn days_in_month(y: i32, m: u32) -> (d: u32)
    ensures
        d == month_length(y as int, m),
{
    if m == 1 || m == 3 || m == 5 || m == 7 || m == 8 || m == 10 || m == 12 {
        31
    } else if m == 4 || m == 6 || m == 9 || m == 11 {
        30
    } else if m == 2 {
        let leap = (y % 4 == 0 && y % 100 != 0) || y % 400 == 0;
        assert(leap == leap_year(y as int));
        if leap {
            29
        } else {
            28
        }
    } else {
        30
    }
}

/// `w - s.len()` zeros before `s` (nothing when `s` is long enough).
pub open spec fn left_zeros(s: Seq<char>, w: nat) -> Seq<char> {
    if s.len() >= w {
        s
    } else {
        Seq::new((w - s.len()) as nat, |i: int| '0') + s
    }
}

/// `n` in decimal, zero-padded to width `w` after its sign (`{:0w}`).
pub open spec fn zero_padded(n: int, w: nat) -> Seq<char> {
    if n < 0 {
        seq!['-'] + left_zeros(text::decimal((-n) as nat), if w > 0 {
            (w - 1) as nat
        } else {
            0
        })
    } else {
        left_zeros(text::decimal(n as nat), w)
    }
}

fn left_zeros_exec(s: Vec<char>, w: usize) -> (r: Vec<char>)
    ensures
        r@ == left_zeros(s@, w as nat),
{
    if s.len() >= w {
        return s;
    }
    let mut out: Vec<char> = Vec::new();
    let n = w - s.len();
    let mut i: usize = 0;
    while i < n
        invariant
            i <= n,
            out.len() == i,
            forall|k: int| 0 <= k < i ==> out@[k] == '0',
        decreases n - i,
    {
        out.push('0');
        i = i + 1;
    }
    assert(out@ =~= Seq::new(n as nat, |k: int| '0'));
    text::concat_chars(&out, &s)
}

/// `n` in decimal, zero-padded to width `w` after its sign.
pub fn zero_padded_exec(n: i64, w: usize) -> (r: Vec<char>)
    ensures
        r@ == zero_padded(n as int, w as nat),
{
    if n < 0 {
        let a: u64 = if n == i64::MIN {
            9223372036854775808u64
        } else {
            (-n) as u64
        };
        let d = text::decimal_chars(a);
        let p = left_zeros_exec(d, if w > 0 {
            w - 1
        } else {
            0
        });
        let minus: Vec<char> = vec!['-'];
        assert(minus@ =~= seq!['-']);
        text::concat_chars(&minus, &p)
    } else {
        let d = text::decimal_chars(n as u64);
        left_zeros_exec(d, w)
    }
}

/// The date key of a day: "YYYY-MM-DD" with zero padding.
pub open spec fn date_key(y: int, m: int, d: int) -> Seq<char> {
    zero_padded(y, 4) + seq!['-'] + zero_padded(m, 2) + seq!['-'] + zero_padded(d, 2)
}

/// The date key of a day.
pub fn date_string(y: i32, m: u32, d: u32) -> (r: String)
    ensures
        r@ == date_key(y as int, m as int, d as int),
{
    let ys = zero_padded_exec(y as i64, 4);
    let ms = zero_padded_exec(m as i64, 2);
    let ds = zero_padded_exec(d as i64, 2);
    let dash: Vec<char> = vec!['-'];
    assert(dash@ =~= seq!['-']);
    let a = text::concat_chars(&ys, &dash);
    let b = text::concat_chars(&a, &ms);
    let c = text::concat_chars(&b, &dash);
    let e = text::concat_chars(&c, &ds);
    text::string_of(&e)
}

/// The days of the shown month, each with its date key.
pub fn month_days(y: i32, m: u32) -> (r: Vec<(u32, String)>)
    ensures
        r.len() == month_length(y as int, m),
        forall|i: int|
            0 <= i < r.len() ==> (#[trigger] r@[i]).0 == i + 1 && r@[i].1@ == date_key(y as int, m as int, i + 1),
{
    let n = days_in_month(y, m);
    let mut out: Vec<(u32, String)> = Vec::new();
    let mut d: u32 = 1;
    while d <= n
        invariant
            1 <= d <= n + 1,
            n == month_length(y as int, m),
            n <= 31,
            out.len() == d - 1,
            forall|i: int|
                0 <= i < out.len() ==> (#[trigger] out@[i]).0 == i + 1 && out@[i].1@ == date_key(y as int, m as int, i + 1),
        decreases n + 1 - d,
    {
        out.push((d, date_string(y, m, d)));
        d = d + 1;
    }
    out
}

/// Whether `s` is in descending order.
pub open spec fn descending(s: Seq<i32>) -> bool {
    forall|i: int, j: int| 0 <= i < j < s.len() ==> s[i] >= s[j]
}

/// The years offered: those with statistics, and the current one, newest
/// first.
pub fn available_years(stored: &Vec<i32>, current: i32) -> (r: Vec<i32>)
    ensures
        descending(r@),
        r@.to_multiset() == (if stored@.contains(current) {
            stored@
        } else {
            stored@.push(current)
        }).to_multiset(),
{
    let mut all: Vec<i32> = stored.clone();
    let mut found = false;
    let mut i: usize = 0;
    while i < stored.len()
        invariant
            i <= stored.len(),
            found == (exists|k: int| 0 <= k < i && stored@[k] == current),
        decreases stored.len() - i,
    {
        if stored[i] == current {
            found = true;
        }
        i = i + 1;
    }
    assert(found == stored@.contains(current));
    if !found {
        all.push(current);
    }
    let ghost target = all@;
    let mut out: Vec<i32> = Vec::new();
    let mut j: usize = 0;
    assert(out@ =~= target.take(0));
    while j < all.len()
        invariant
            j <= all.len(),
            all@ == target,
            descending(out@),
            out@.to_multiset() == target.take(j as int).to_multiset(),
        decreases all.len() - j,
    {
        let x = all[j];
        let mut k: usize = 0;
        while k < out.len() && out[k] >= x
            invariant
                k <= out.len(),
                forall|q: int| 0 <= q < k ==> out@[q] >= x,
            decreases out.len() - k,
        {
            k = k + 1;
        }
        let ghost before = out@;
        out.insert(k, x);
        proof {
            assert(out@ =~= before.take(k as int).push(x) + before.skip(k as int));
            assert forall|p: int, q: int| 0 <= p < q < out.len() implies out@[p] >= out@[q] by {
                if q < k {
                } else if q == k {
                } else if p < k {
                    assert(before[p] >= before[q - 1]);
                    if k < before.len() {
                        assert(before[k as int] < x);
                    }
                } else if p == k {
                    assert(before[k as int] < x || k >= before.len());
                    assert(before[k as int] >= before[q - 1]);
                } else {
                    assert(before[p - 1] >= before[q - 1]);
                }
            }
            assert(target.take(j + 1) =~= target.take(j as int).push(x));
            vstd::seq_lib::lemma_multiset_commutative(before.take(k as int), seq![x]);
            assert(before =~= before.take(k as int) + before.skip(k as int));
            vstd::seq_lib::lemma_multiset_commutative(before.take(k as int), before.skip(k as int));
            vstd::seq_lib::lemma_multiset_commutative(before.take(k as int).push(x), before.skip(k as int));
            vstd::seq_lib::lemma_multiset_commutative(before, seq![x]);
            assert(before.push(x) =~= before + seq![x]);
            assert(before.take(k as int).push(x) =~= before.take(k as int) + seq![x]);
            assert(target.take(j as int).push(x) =~= target.take(j as int) + seq![x]);
            vstd::seq_lib::lemma_multiset_commutative(target.take(j as int), seq![x]);
        }
        j = j + 1;
    }
    assert(target.take(all.len() as int) =~= target);
    out
}

} // verus!
