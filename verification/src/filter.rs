//! Window-title filters.
//!
//! A wallpaper configuration carries a list of [`Filter`]s; a window of the
//! target application receives an overlay only if its title satisfies every
//! filter (AND semantics). A missing title never matches a title filter.

use vstd::prelude::*;

verus! {

/// How a window-title filter compares its configured text against a title.
#[derive(Debug, Clone, Copy, PartialEq, Eq, Structural)]
pub enum StringFilterStrategy {
    Prefix,
    Suffix,
    Contains,
    Exact,
}

/// A predicate over a window's title text; part of a wallpaper configuration.
#[derive(Debug)]
pub enum Filter {
    WindowName { name: String, strategy: StringFilterStrategy },
}

impl Clone for Filter {
    fn clone(&self) -> (r: Self)
        ensures
            r@ == self@,
    {
        match self {
            Filter::WindowName { name, strategy } => Filter::WindowName {
                name: name.clone(),
                strategy: *strategy,
            },
        }
    }
}

/// The mathematical content of a [`Filter`]: its text and strategy.
pub struct FilterView {
    pub name: Seq<char>,
    pub strategy: StringFilterStrategy,
}

impl View for Filter {
    type V = FilterView;

    open spec fn view(&self) -> FilterView {
        match self {
            Filter::WindowName { name, strategy } => FilterView {
                name: name@,
                strategy: *strategy,
            },
        }
    }
}

impl DeepView for Filter {
    type V = FilterView;

    open spec fn deep_view(&self) -> FilterView {
        self.view()
    }
}

/// Copies a filter list, preserving its mathematical content.
pub fn clone_filters(filters: &Vec<Filter>) -> (r: Vec<Filter>)
    ensures
        r.deep_view() == filters.deep_view(),
{
    let mut r: Vec<Filter> = Vec::new();
    let filters_len = filters.len();
    let mut i: usize = 0;
    while i < filters_len
        invariant
            filters_len == filters@.len(),
            0 <= i <= filters_len,
            r@.len() == i,
            forall|j: int| 0 <= j < i ==> #[trigger] r@[j]@ == filters@[j]@,
        decreases filters_len - i,
    {
        r.push(filters[i].clone());
        i = i + 1;
    }
    assert(r.deep_view() =~= filters.deep_view());
    r
}

/// `search` occurs as a contiguous subsequence of `target`.
pub open spec fn seq_contains_sub(target: Seq<char>, search: Seq<char>) -> bool {
    exists|k: int|
        0 <= k <= target.len() - search.len() && #[trigger] target.subrange(k, k + search.len())
            == search
}

/// What `string_filter` decides for each strategy.
pub open spec fn spec_string_filter(
    target: Seq<char>,
    search: Seq<char>,
    strategy: StringFilterStrategy,
) -> bool {
    match strategy {
        StringFilterStrategy::Prefix => search.is_prefix_of(target),
        StringFilterStrategy::Suffix => search.is_suffix_of(target),
        StringFilterStrategy::Contains => seq_contains_sub(target, search),
        StringFilterStrategy::Exact => target == search,
    }
}

/// `search` matches `target` exactly at character offset `offset`.
fn matches_at(target: &str, search: &str, offset: usize) -> (r: bool)
    requires
        offset + search@.len() <= target@.len(),
        target@.len() <= usize::MAX,
    ensures
        r == (target@.subrange(offset as int, offset + search@.len()) == search@),
{
    let search_len = search.unicode_len();
    let mut j: usize = 0;
    while j < search_len
        invariant
            offset + search@.len() <= target@.len(),
            target@.len() <= usize::MAX,
            search_len == search@.len(),
            0 <= j <= search_len,
            forall|m: int| 0 <= m < j ==> target@[offset + m] == search@[m],
        decreases search_len - j,
    {
        if target.get_char(offset + j) != search.get_char(j) {
            assert(target@.subrange(offset as int, offset + search@.len())[j as int] != search@[j as int]);
            return false;
        }
        j = j + 1;
    }
    assert(target@.subrange(offset as int, offset + search@.len()) =~= search@);
    true
}

/// Decides whether `target` matches `search` under the given strategy:
/// prefix, suffix, substring, or exact (case-sensitive) equality.
pub fn string_filter(target: &str, search: &str, strategy: &StringFilterStrategy) -> (r: bool)
    ensures
        r == spec_string_filter(target@, search@, *strategy),
{
    let target_len = target.unicode_len();
    let search_len = search.unicode_len();
    match strategy {
        StringFilterStrategy::Prefix => {
            if search_len > target_len {
                false
            } else {
                matches_at(target, search, 0)
            }
        },
        StringFilterStrategy::Suffix => {
            if search_len > target_len {
                false
            } else {
                matches_at(target, search, target_len - search_len)
            }
        },
        StringFilterStrategy::Contains => {
            if search_len > target_len {
                assert(!seq_contains_sub(target@, search@));
                return false;
            }
            if search_len == 0 {
                assert(seq_contains_sub(target@, search@)) by {
                    assert(target@.subrange(0, 0 + search@.len() as int) =~= search@);
                }
                return true;
            }
            let mut k: usize = 0;
            while k <= target_len - search_len
                invariant
                    *strategy is Contains,
                    0 < search_len <= target_len,
                    target_len == target@.len(),
                    search_len == search@.len(),
                    0 <= k <= target_len - search_len + 1,
                    forall|m: int|
                        0 <= m < k ==> #[trigger] target@.subrange(m, m + search@.len())
                            != search@,
                decreases target_len - k,
            {
                if matches_at(target, search, k) {
                    assert(seq_contains_sub(target@, search@)) by {
                        assert(0 <= k as int <= target@.len() - search@.len());
                        assert(target@.subrange(k as int, k as int + search@.len() as int)
                            == search@);
                    }
                    return true;
                }
                k = k + 1;
            }
            false
        },
        StringFilterStrategy::Exact => {
            if target_len != search_len {
                assert(target@ != search@);
                false
            } else {
                let r = matches_at(target, search, 0);
                assert(target@.subrange(0, target@.len() as int) =~= target@);
                r
            }
        },
    }
}

/// A single filter's verdict on a window whose title is `window_name`
/// (`None` when the title could not be obtained; that never matches).
pub open spec fn spec_filter_matches(window_name: Option<Seq<char>>, f: FilterView) -> bool {
    match window_name {
        Some(title) => spec_string_filter(title, f.name, f.strategy),
        None => false,
    }
}

/// All filters accept the window title (vacuously true for no filters).
pub open spec fn spec_wallpaper_filter(
    window_name: Option<Seq<char>>,
    filters: Seq<FilterView>,
) -> bool {
    forall|i: int| 0 <= i < filters.len() ==> spec_filter_matches(window_name, #[trigger] filters[i])
}

/// Decides whether a window titled `window_name` passes every configured
/// filter; a window without an obtainable title fails every title filter.
pub fn wallpaper_filter(window_name: Option<String>, filters: &[Filter]) -> (r: bool)
    ensures
        r == spec_wallpaper_filter(window_name.deep_view(), filters.deep_view()),
{
    let filters_len = filters.len();
    let mut i: usize = 0;
    while i < filters_len
        invariant
            filters_len == filters@.len(),
            0 <= i <= filters_len,
            forall|m: int|
                0 <= m < i ==> spec_filter_matches(
                    window_name.deep_view(),
                    #[trigger] filters.deep_view()[m],
                ),
        decreases filters_len - i,
    {
        let Filter::WindowName { name, strategy } = &filters[i];
        let matched = match &window_name {
            Some(title) => string_filter(title.as_str(), name.as_str(), strategy),
            None => false,
        };
        if !matched {
            assert(filters.deep_view()[i as int] == filters@[i as int]@);
            return false;
        }
        assert(filters.deep_view()[i as int] == filters@[i as int]@);
        i = i + 1;
    }
    true
}

} // verus!

