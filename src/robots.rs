use vstd::prelude::*;
use vstd::string::StringExecFns;

use crate::model::{copy_text, opt_view, Robot, RobotFilterType, RobotForm, SortField};
use crate::text::{contains_fold, contains_ignore_case, is_blank, lemma_lex_total, lemma_lex_trans, lex_le, lex_le_text, str_equal, trim};

verus! {

/// What a robot holds, as mathematical values.
pub struct RobotView {
    pub id: Option<int>,
    pub name: Seq<char>,
    pub specifications: Option<Seq<char>>,
    pub manufacturer: Option<Seq<char>>,
}

impl View for Robot {
    type V = RobotView;

    open spec fn view(&self) -> RobotView {
        RobotView {
            id: match self.robot_id {
                Some(i) => Some(i as int),
                None => None,
            },
            name: self.name@,
            specifications: opt_view(self.specifications),
            manufacturer: opt_view(self.manufacturer),
        }
    }
}

impl Robot {
    /// A copy of the robot.
    pub fn clone_robot(&self) -> (r: Robot)
        ensures
            r@ == self@,
    {
        Robot {
            robot_id: self.robot_id,
            name: self.name.clone(),
            specifications: copy_text(&self.specifications),
            manufacturer: copy_text(&self.manufacturer),
        }
    }
}

/// An optional field contains the filter text, in any ASCII letter case.
pub open spec fn field_contains(o: Option<Seq<char>>, filter: Seq<char>) -> bool {
    o matches Some(s) && contains_fold(s, filter)
}

/// A robot passes a filter when the filter is empty, or when the fields the filter type
/// names contain it: name, manufacturer or specifications for `All`, the manufacturer for
/// `ByManufacturer`, and the specifications for the other two.
pub open spec fn robot_matches(r: RobotView, filter: Seq<char>, kind: RobotFilterType) -> bool {
    filter.len() == 0 || match kind {
        RobotFilterType::All => contains_fold(r.name, filter) || field_contains(
            r.manufacturer,
            filter,
        ) || field_contains(r.specifications, filter),
        RobotFilterType::ByManufacturer => field_contains(r.manufacturer, filter),
        _ => field_contains(r.specifications, filter),
    }
}

/// The robots of `s` that pass a filter, in their order.
pub open spec fn robots_passing(s: Seq<RobotView>, filter: Seq<char>, kind: RobotFilterType) -> Seq<
    RobotView,
>
    decreases s.len(),
{
    if s.len() == 0 {
        Seq::<RobotView>::empty()
    } else if robot_matches(s.last(), filter, kind) {
        robots_passing(s.drop_last(), filter, kind).push(s.last())
    } else {
        robots_passing(s.drop_last(), filter, kind)
    }
}

/// The views of a list of robots.
pub open spec fn robot_views(v: Seq<Robot>) -> Seq<RobotView> {
    v.map_values(|x: Robot| x@)
}

fn field_has(o: &Option<String>, filter: &str) -> (r: bool)
    ensures
        r == field_contains(opt_view(*o), filter@),
{
    match o {
        Some(s) => contains_ignore_case(s.as_str(), filter),
        None => false,
    }
}

/// Whether a robot passes a filter text of a filter type.
pub fn robot_passes(robot: &Robot, filter: &str, filter_type: RobotFilterType) -> (r: bool)
    ensures
        r == robot_matches(robot@, filter@, filter_type),
{
    if filter.unicode_len() == 0 {
        return true;
    }
    match filter_type {
        RobotFilterType::All => contains_ignore_case(robot.name.as_str(), filter) || field_has(
            &robot.manufacturer,
            filter,
        ) || field_has(&robot.specifications, filter),
        RobotFilterType::ByManufacturer => field_has(&robot.manufacturer, filter),
        _ => field_has(&robot.specifications, filter),
    }
}

/// The robots that pass a filter text of a filter type, in their order.
pub fn filter_robots(robots: &Vec<Robot>, filter: &str, filter_type: RobotFilterType) -> (r: Vec<
    Robot,
>)
    ensures
        robot_views(r@) == robots_passing(robot_views(robots@), filter@, filter_type),
{
    let n = robots.len();
    let ghost all = robot_views(robots@);
    let mut out: Vec<Robot> = Vec::new();
    let mut i: usize = 0;
    assert(all.subrange(0, 0) =~= Seq::<RobotView>::empty());
    assert(robot_views(out@) =~= Seq::<RobotView>::empty());
    while i < n
        invariant
            n == robots@.len(),
            all == robot_views(robots@),
            i <= n,
            robot_views(out@) == robots_passing(all.subrange(0, i as int), filter@, filter_type),
        decreases n - i,
    {
        let ghost seen = all.subrange(0, i + 1);
        assert(seen.drop_last() =~= all.subrange(0, i as int));
        assert(seen.last() == robots@[i as int]@);
        if robot_passes(&robots[i], filter, filter_type) {
            let ghost before = out@;
            out.push(robots[i].clone_robot());
            assert(robot_views(out@) =~= robot_views(before).push(robots@[i as int]@));
        }
        i = i + 1;
    }
    assert(all.subrange(0, n as int) =~= all);
    out
}

/// A form is complete when name, manufacturer and specifications are all filled in.
pub open spec fn form_complete(f: RobotForm) -> bool {
    !is_blank(f.name@) && !is_blank(f.manufacturer@) && !is_blank(f.specifications@)
}

/// Whether a robot form has every field filled in.
pub fn is_form_complete(form: &RobotForm) -> (r: bool)
    ensures
        r == form_complete(*form),
{
    trim(form.name.as_str()).unicode_len() != 0 && trim(form.manufacturer.as_str()).unicode_len()
        != 0 && trim(form.specifications.as_str()).unicode_len() != 0
}

/// Adds a software version to a form, unless it is blank or already listed.
pub fn add_form_software_version(form: &mut RobotForm, version: String)
    ensures
        final(form).name == old(form).name,
        final(form).manufacturer == old(form).manufacturer,
        final(form).specifications == old(form).specifications,
        (is_blank(version@) || exists|i: int|
            0 <= i < old(form).software_versions@.len()
                && (#[trigger] old(form).software_versions@[i])@ == version@) ==> final(form).software_versions@ == old(form).software_versions@,
        !(is_blank(version@) || exists|i: int|
            0 <= i < old(form).software_versions@.len()
                && (#[trigger] old(form).software_versions@[i])@ == version@) ==> final(form).software_versions@ == old(form).software_versions@.push(version),
{
    if trim(version.as_str()).unicode_len() == 0 {
        return;
    }
    let n = form.software_versions.len();
    let mut i: usize = 0;
    while i < n
        invariant
            n == form.software_versions@.len(),
            i <= n,
            forall|k: int| 0 <= k < i ==> (#[trigger] form.software_versions@[k])@ != version@,
        decreases n - i,
    {
        if str_equal(form.software_versions[i].as_str(), version.as_str()) {
            return;
        }
        i = i + 1;
    }
    form.software_versions.push(version);
}

/// Removes the software version at `index` from a form, if there is one there.
pub fn remove_form_software_version(form: &mut RobotForm, index: usize)
    ensures
        final(form).name == old(form).name,
        final(form).manufacturer == old(form).manufacturer,
        final(form).specifications == old(form).specifications,
        index < old(form).software_versions@.len() ==> final(form).software_versions@ == old(form).software_versions@.remove(index as int),
        index >= old(form).software_versions@.len() ==> final(form).software_versions@ == old(form).software_versions@,
{
    if index < form.software_versions.len() {
        form.software_versions.remove(index);
    }
}

/// The robot a submitted form describes, under the identifier the store gave it.
pub fn robot_from_form(robot_id: Option<i32>, form: &RobotForm) -> (r: Robot)
    ensures
        r.robot_id == robot_id,
        r@.name == form.name@,
        r@.manufacturer == Some(form.manufacturer@),
        r@.specifications == Some(form.specifications@),
{
    Robot {
        robot_id,
        name: form.name.clone(),
        manufacturer: Some(form.manufacturer.clone()),
        specifications: Some(form.specifications.clone()),
    }
}

/// A form filled in from a robot, for editing; absent fields become empty.
pub fn form_from_robot(robot: &Robot) -> (r: RobotForm)
    ensures
        r.name@ == robot.name@,
        r.manufacturer@ == match robot@.manufacturer {
            Some(m) => m,
            None => Seq::<char>::empty(),
        },
        r.specifications@ == match robot@.specifications {
            Some(s) => s,
            None => Seq::<char>::empty(),
        },
        r.software_versions@.len() == 0,
{
    RobotForm {
        name: robot.name.clone(),
        manufacturer: match &robot.manufacturer {
            Some(m) => m.clone(),
            None => String::new(),
        },
        specifications: match &robot.specifications {
            Some(s) => s.clone(),
            None => String::new(),
        },
        software_versions: Vec::new(),
    }
}

/// The robot with identifier `robot_id` in a list, if any.
pub fn find_robot(robots: &Vec<Robot>, robot_id: i32) -> (r: Option<usize>)
    ensures
        r matches Some(i) ==> i < robots@.len() && robots@[i as int].robot_id == Some(robot_id)
            && forall|k: int| 0 <= k < i ==> (#[trigger] robots@[k]).robot_id != Some(robot_id),
        r is None ==> forall|k: int| 0 <= k < robots@.len() ==> (#[trigger] robots@[k]).robot_id
            != Some(robot_id),
{
    let n = robots.len();
    let mut i: usize = 0;
    while i < n
        invariant
            n == robots@.len(),
            i <= n,
            forall|k: int| 0 <= k < i ==> (#[trigger] robots@[k]).robot_id != Some(robot_id),
        decreases n - i,
    {
        match robots[i].robot_id {
            Some(id) => {
                if id == robot_id {
                    return Some(i);
                }
            },
            None => {},
        }
        i = i + 1;
    }
    None
}

/// The text a robot is ordered by: its name, or its manufacturer (empty when absent).
pub open spec fn robot_key(r: RobotView, field: SortField) -> Seq<char> {
    if field == SortField::Manufacturer {
        match r.manufacturer {
            Some(m) => m,
            None => Seq::<char>::empty(),
        }
    } else {
        r.name
    }
}

/// `a` may stand before `b` when ordering robots by `field` in the given direction.
pub open spec fn robot_in_order(a: RobotView, b: RobotView, field: SortField, ascending: bool) -> bool {
    if ascending {
        lex_le(robot_key(a, field), robot_key(b, field))
    } else {
        lex_le(robot_key(b, field), robot_key(a, field))
    }
}

fn key_of(robot: &Robot, field: SortField) -> (r: &str)
    ensures
        r@ == robot_key(robot@, field),
{
    proof {
        reveal_strlit("");
    }
    assert(""@ =~= Seq::<char>::empty());
    if field == SortField::Manufacturer {
        match &robot.manufacturer {
            Some(m) => m.as_str(),
            None => "",
        }
    } else {
        robot.name.as_str()
    }
}

fn robots_in_order(a: &Robot, b: &Robot, field: SortField, ascending: bool) -> (r: bool)
    ensures
        r == robot_in_order(a@, b@, field, ascending),
{
    if ascending {
        lex_le_text(key_of(a, field), key_of(b, field))
    } else {
        lex_le_text(key_of(b, field), key_of(a, field))
    }
}

proof fn lemma_in_order_total(a: RobotView, b: RobotView, field: SortField, ascending: bool)
    ensures
        robot_in_order(a, b, field, ascending) || robot_in_order(b, a, field, ascending),
{
    lemma_lex_total(robot_key(a, field), robot_key(b, field));
}

proof fn lemma_in_order_trans(a: RobotView, b: RobotView, c: RobotView, field: SortField, ascending: bool)
    requires
        robot_in_order(a, b, field, ascending),
        robot_in_order(b, c, field, ascending),
    ensures
        robot_in_order(a, c, field, ascending),
{
    if ascending {
        lemma_lex_trans(robot_key(a, field), robot_key(b, field), robot_key(c, field));
    } else {
        lemma_lex_trans(robot_key(c, field), robot_key(b, field), robot_key(a, field));
    }
}

/// Orders robots by name or by manufacturer (an absent one as empty), ascending or
/// descending; other sort fields leave the list as it is.
pub fn sort_robots(robots: &Vec<Robot>, sort_field: SortField, sort_ascending: bool) -> (r: Vec<Robot>)
    ensures
        robot_views(r@).to_multiset() == robot_views(robots@).to_multiset(),
        sort_field == SortField::RobotName || sort_field == SortField::Manufacturer ==> forall|
            i: int,
            j: int,
        |
            0 <= i < j < r@.len() ==> robot_in_order(
                (#[trigger] r@[i])@,
                (#[trigger] r@[j])@,
                sort_field,
                sort_ascending,
            ),
        !(sort_field == SortField::RobotName || sort_field == SortField::Manufacturer) ==> robot_views(r@)
            == robot_views(robots@),
{
    let n = robots.len();
    let ghost all = robot_views(robots@);
    let mut out: Vec<Robot> = Vec::new();
    if !(sort_field == SortField::RobotName || sort_field == SortField::Manufacturer) {
        let mut k: usize = 0;
        assert(robot_views(out@) =~= all.subrange(0, 0));
        while k < n
            invariant
                n == robots@.len(),
                all == robot_views(robots@),
                k <= n,
                robot_views(out@) == all.subrange(0, k as int),
            decreases n - k,
        {
            let ghost before = out@;
            out.push(robots[k].clone_robot());
            assert(robot_views(out@) =~= robot_views(before).push(robots@[k as int]@));
            assert(all.subrange(0, k + 1) =~= all.subrange(0, k as int).push(all[k as int]));
            k = k + 1;
        }
        assert(all.subrange(0, n as int) =~= all);
        return out;
    }
    let mut i: usize = 0;
    assert(robot_views(out@) =~= all.subrange(0, 0));
    while i < n
        invariant
            n == robots@.len(),
            all == robot_views(robots@),
            i <= n,
            robot_views(out@).to_multiset() == all.subrange(0, i as int).to_multiset(),
            forall|a: int, b: int|
                0 <= a < b < out@.len() ==> robot_in_order(
                    (#[trigger] out@[a])@,
                    (#[trigger] out@[b])@,
                    sort_field,
                    sort_ascending,
                ),
        decreases n - i,
    {
        let x = robots[i].clone_robot();
        let mut p: usize = 0;
        while p < out.len() && robots_in_order(&out[p], &x, sort_field, sort_ascending)
            invariant
                p <= out@.len(),
                forall|q: int| 0 <= q < p ==> robot_in_order(
                    (#[trigger] out@[q])@,
                    x@,
                    sort_field,
                    sort_ascending,
                ),
            decreases out@.len() - p,
        {
            p = p + 1;
        }
        let ghost old_out = out@;
        proof {
            assert forall|q: int| p <= q < old_out.len() implies robot_in_order(
                x@,
                (#[trigger] old_out[q])@,
                sort_field,
                sort_ascending,
            ) by {
                lemma_in_order_total(old_out[p as int]@, x@, sort_field, sort_ascending);
                if q > p {
                    lemma_in_order_trans(x@, old_out[p as int]@, old_out[q]@, sort_field, sort_ascending);
                }
            }
        }
        out.insert(p, x);
        proof {
            let ns = out@;
            assert(ns == old_out.insert(p as int, x));
            assert forall|a: int, b: int| 0 <= a < b < ns.len() implies robot_in_order(
                (#[trigger] ns[a])@,
                (#[trigger] ns[b])@,
                sort_field,
                sort_ascending,
            ) by {
                if b < p {
                    assert(ns[a] == old_out[a] && ns[b] == old_out[b]);
                } else if b == p {
                    assert(ns[a] == old_out[a]);
                } else if a < p {
                    assert(ns[a] == old_out[a] && ns[b] == old_out[b - 1]);
                    lemma_in_order_trans(old_out[a]@, x@, old_out[b - 1]@, sort_field, sort_ascending);
                } else if a == p {
                    assert(ns[b] == old_out[b - 1]);
                } else {
                    assert(ns[a] == old_out[a - 1] && ns[b] == old_out[b - 1]);
                }
            }
            assert(robot_views(ns) =~= robot_views(old_out).insert(p as int, x@));
            vstd::seq_lib::to_multiset_insert(robot_views(old_out), p as int, x@);
            let seen = all.subrange(0, i + 1);
            assert(seen =~= all.subrange(0, i as int).push(x@));
            vstd::seq_lib::to_multiset_build(all.subrange(0, i as int), x@);
        }
        i = i + 1;
    }
    assert(all.subrange(0, n as int) =~= all);
    out
}

} // verus!
