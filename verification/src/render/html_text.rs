//! HTML of a whole document as two texts, head and body, joined from rendered blocks.
use vstd::prelude::*;
use vstd::string::StringExecFns;

verus! {

/// HTML as text: the content of the head and the content of the body.
#[derive(Debug, Default)]
pub struct Html {
    pub head: String,
    pub body: String,
}

/// Whether every part was rendered.
pub open spec fn all_rendered<E>(parts: Seq<Result<Html, E>>) -> bool {
    forall|i: int| 0 <= i < parts.len() ==> #[trigger] parts[i] is Ok
}

/// The heads of rendered parts, joined in order.
pub open spec fn joined_heads<E>(parts: Seq<Result<Html, E>>) -> Seq<char>
    decreases parts.len(),
{
    if parts.len() == 0 {
        Seq::empty()
    } else {
        joined_heads(parts.drop_last()) + match parts.last() {
            Ok(h) => h.head@,
            Err(_) => Seq::empty(),
        }
    }
}

/// The bodies of rendered parts, joined in order.
pub open spec fn joined_bodies<E>(parts: Seq<Result<Html, E>>) -> Seq<char>
    decreases parts.len(),
{
    if parts.len() == 0 {
        Seq::empty()
    } else {
        joined_bodies(parts.drop_last()) + match parts.last() {
            Ok(h) => h.body@,
            Err(_) => Seq::empty(),
        }
    }
}

/// The parts are what rendering the first blocks gave, one call of `render` per block, in
/// order.
pub open spec fn rendered_by<B, E, F: Fn(&B) -> Result<Html, E>>(
    render: F,
    blocks: Seq<B>,
    parts: Seq<Result<Html, E>>,
) -> bool {
    &&& parts.len() <= blocks.len()
    &&& forall|i: int| 0 <= i < parts.len() ==> call_ensures(render, (&blocks[i],), #[trigger] parts[i])
}

/// Renders blocks one after the other and joins their HTML in order: heads after heads, bodies
/// after bodies. Rendering stops at the first block that fails, whose error is the result; the
/// blocks after it are not rendered.
pub fn render_html<B, E, F: Fn(&B) -> Result<Html, E>>(blocks: &Vec<B>, render: F) -> (r: Result<Html, E>)
    requires
        forall|i: int| 0 <= i < blocks@.len() ==> call_requires(render, (&blocks@[i],)),
    ensures
        r matches Ok(h) ==> exists|parts: Seq<Result<Html, E>>|
            #[trigger] rendered_by(render, blocks@, parts) && parts.len() == blocks@.len() && all_rendered(parts)
                && h.head@ == joined_heads(parts) && h.body@ == joined_bodies(parts),
        r matches Err(e) ==> exists|parts: Seq<Result<Html, E>>|
            #[trigger] rendered_by(render, blocks@, parts) && parts.len() > 0 && all_rendered(parts.drop_last())
                && parts.last() == Err::<Html, E>(e),
{
    let mut head = String::new();
    let mut body = String::new();
    let ghost mut parts: Seq<Result<Html, E>> = Seq::empty();
    let mut i: usize = 0;
    while i < blocks.len()
        invariant
            forall|j: int| 0 <= j < blocks@.len() ==> call_requires(render, (&blocks@[j],)),
            i <= blocks@.len(),
            parts.len() == i,
            rendered_by(render, blocks@, parts),
            all_rendered(parts),
            head@ == joined_heads(parts),
            body@ == joined_bodies(parts),
        decreases blocks@.len() - i,
    {
        let res = render(&blocks[i]);
        let ghost rv = res;
        match res {
            Ok(html_part) => {
                body.append(html_part.body.as_str());
                head.append(html_part.head.as_str());
                proof {
                    let np = parts.push(rv);
                    assert(np.drop_last() =~= parts);
                    assert forall|j: int| 0 <= j < np.len() implies call_ensures(render, (&blocks@[j],), #[trigger] np[j]) by {
                        if j < parts.len() {
                            assert(np[j] == parts[j]);
                        }
                    }
                    assert forall|j: int| 0 <= j < np.len() implies #[trigger] np[j] is Ok by {
                        if j < parts.len() {
                            assert(np[j] == parts[j]);
                        }
                    }
                    parts = np;
                }
            },
            Err(e) => {
                proof {
                    let np = parts.push(rv);
                    assert(np.drop_last() =~= parts);
                    assert forall|j: int| 0 <= j < np.len() implies call_ensures(render, (&blocks@[j],), #[trigger] np[j]) by {
                        if j < parts.len() {
                            assert(np[j] == parts[j]);
                        }
                    }
                    assert(rendered_by(render, blocks@, np));
                }
                return Err(e);
            },
        }
        i = i + 1;
    }
    Ok(Html { head, body })
}

} // verus!
