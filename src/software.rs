use vstd::prelude::*;
use vstd::string::StringExecFns;

use crate::model::{copy_text, opt_view, DateTime, SoftwareProduct, SoftwareVersion};

verus! {

/// What a software product holds, as mathematical values.
pub struct ProductView {
    pub id: Option<int>,
    pub name: Seq<char>,
    pub vendor: Seq<char>,
    pub description: Option<Seq<char>>,
}

/// What a software version holds, as mathematical values.
pub struct VersionView {
    pub id: Option<int>,
    pub product_id: int,
    pub number: Seq<char>,
    pub release_date: Option<DateTime>,
}

impl View for SoftwareProduct {
    type V = ProductView;

    open spec fn view(&self) -> ProductView {
        ProductView {
            id: match self.product_id {
                Some(i) => Some(i as int),
                None => None,
            },
            name: self.product_name@,
            vendor: self.vendor@,
            description: opt_view(self.description),
        }
    }
}

impl View for SoftwareVersion {
    type V = VersionView;

    open spec fn view(&self) -> VersionView {
        VersionView {
            id: match self.version_id {
                Some(i) => Some(i as int),
                None => None,
            },
            product_id: self.product_id as int,
            number: self.version_number@,
            release_date: self.release_date,
        }
    }
}

impl SoftwareProduct {
    /// A copy of the product.
    pub fn clone_product(&self) -> (r: SoftwareProduct)
        ensures
            r@ == self@,
    {
        SoftwareProduct {
            product_id: self.product_id,
            product_name: self.product_name.clone(),
            vendor: self.vendor.clone(),
            description: copy_text(&self.description),
        }
    }
}

impl SoftwareVersion {
    /// A copy of the version.
    pub fn clone_version(&self) -> (r: SoftwareVersion)
        ensures
            r@ == self@,
    {
        SoftwareVersion {
            version_id: self.version_id,
            product_id: self.product_id,
            version_number: self.version_number.clone(),
            release_date: self.release_date,
        }
    }
}

/// A row of a product search: a product, and one of its versions if it has any.
pub open spec fn row_view(r: (SoftwareProduct, Option<SoftwareVersion>)) -> (ProductView, Seq<VersionView>) {
    (
        r.0@,
        match r.1 {
            Some(v) => seq![v@],
            None => Seq::<VersionView>::empty(),
        },
    )
}

/// A product with its versions.
pub open spec fn group_view(g: (SoftwareProduct, Vec<SoftwareVersion>)) -> (ProductView, Seq<VersionView>) {
    (g.0@, g.1@.map_values(|v: SoftwareVersion| v@))
}

/// Rows grouped by product: a run of rows for one product becomes one entry holding that
/// product and all the versions of the run, in order.
pub open spec fn grouped(rows: Seq<(ProductView, Seq<VersionView>)>) -> Seq<(ProductView, Seq<VersionView>)>
    decreases rows.len(),
{
    if rows.len() == 0 {
        Seq::<(ProductView, Seq<VersionView>)>::empty()
    } else {
        let g = grouped(rows.drop_last());
        let r = rows.last();
        if g.len() > 0 && g.last().0.id == r.0.id {
            g.update(g.len() - 1, (g.last().0, g.last().1 + r.1))
        } else {
            g.push(r)
        }
    }
}

/// Groups the rows of a product search, ordered by product, into one entry per product
/// with its versions.
pub fn group_product_rows(rows: &Vec<(SoftwareProduct, Option<SoftwareVersion>)>) -> (r: Vec<
    (SoftwareProduct, Vec<SoftwareVersion>),
>)
    ensures
        r@.map_values(|g: (SoftwareProduct, Vec<SoftwareVersion>)| group_view(g)) == grouped(
            rows@.map_values(|x: (SoftwareProduct, Option<SoftwareVersion>)| row_view(x)),
        ),
{
    let ghost all = rows@.map_values(|x: (SoftwareProduct, Option<SoftwareVersion>)| row_view(x));
    let n = rows.len();
    let mut out: Vec<(SoftwareProduct, Vec<SoftwareVersion>)> = Vec::new();
    let mut current: Option<(SoftwareProduct, Vec<SoftwareVersion>)> = None;
    let mut i: usize = 0;
    assert(all.subrange(0, 0) =~= Seq::<(ProductView, Seq<VersionView>)>::empty());
    assert(out@.map_values(|g: (SoftwareProduct, Vec<SoftwareVersion>)| group_view(g))
        =~= Seq::<(ProductView, Seq<VersionView>)>::empty());
    while i < n
        invariant
            n == rows@.len(),
            all == rows@.map_values(|x: (SoftwareProduct, Option<SoftwareVersion>)| row_view(x)),
            i <= n,
            current is None <==> i == 0,
            grouped(all.subrange(0, i as int)) == match current {
                Some(c) => out@.map_values(|g: (SoftwareProduct, Vec<SoftwareVersion>)| group_view(g)).push(
                    group_view(c),
                ),
                None => out@.map_values(|g: (SoftwareProduct, Vec<SoftwareVersion>)| group_view(g)),
            },
        decreases n - i,
    {
        let ghost seen = all.subrange(0, i + 1);
        assert(seen.drop_last() =~= all.subrange(0, i as int));
        assert(seen.last() == row_view(rows@[i as int]));
        let ghost outs = out@.map_values(|g: (SoftwareProduct, Vec<SoftwareVersion>)| group_view(g));
        let product = rows[i].0.clone_product();
        let version: Option<SoftwareVersion> = match &rows[i].1 {
            Some(v) => Some(v.clone_version()),
            None => None,
        };
        let same = match &current {
            Some(c) => c.0.product_id == product.product_id,
            None => false,
        };
        if same {
            let mut c = current.unwrap();
            let ghost before = group_view(c);
            match version {
                Some(v) => {
                    c.1.push(v);
                },
                None => {},
            }
            assert(group_view(c).1 =~= before.1 + row_view(rows@[i as int]).1);
            assert(outs.push(before).last() == before);
            assert(outs.push(before).update(outs.len() as int, group_view(c)) =~= outs.push(
                group_view(c),
            ));
            current = Some(c);
        } else {
            let mut versions: Vec<SoftwareVersion> = Vec::new();
            match version {
                Some(v) => {
                    versions.push(v);
                },
                None => {},
            }
            let fresh = (product, versions);
            assert(group_view(fresh).1 =~= row_view(rows@[i as int]).1);
            match current {
                Some(c) => {
                    let ghost cv = group_view(c);
                    out.push(c);
                    assert(out@.map_values(|g: (SoftwareProduct, Vec<SoftwareVersion>)| group_view(g))
                        =~= outs.push(cv));
                },
                None => {},
            }
            current = Some(fresh);
        }
        i = i + 1;
    }
    match current {
        Some(c) => {
            let ghost before = out@.map_values(|g: (SoftwareProduct, Vec<SoftwareVersion>)| group_view(g));
            let ghost cv = group_view(c);
            out.push(c);
            assert(out@.map_values(|g: (SoftwareProduct, Vec<SoftwareVersion>)| group_view(g))
                =~= before.push(cv));
        },
        None => {},
    }
    assert(all.subrange(0, n as int) =~= all);
    out
}

/// Narrows a store identifier to 32 bits; `context` names the value in the error.
pub fn to_i32(value: i64, context: &str) -> (r: Result<i32, String>)
    ensures
        i32::MIN <= value <= i32::MAX ==> r == Ok::<i32, String>(value as i32),
        !(i32::MIN <= value <= i32::MAX) ==> (r matches Err(e) && e@ == "Integer overflow for "@
            + context@),
{
    if i32::MIN as i64 <= value && value <= i32::MAX as i64 {
        Ok(value as i32)
    } else {
        let mut e = String::from_str("Integer overflow for ");
        e.append(context);
        Err(e)
    }
}

} // verus!
