use vstd::prelude::*;

verus! {

/// How one path stands to another in the order of the file list.
#[derive(Clone, Copy, Debug, PartialEq, Eq, Structural)]
pub enum Order {
    Before,
    Same,
    After,
}

/// An ASCII capital letter as its small letter, any other byte as itself.
pub open spec fn lower(b: u8) -> u8 {
    if 'A' as u8 <= b <= 'Z' as u8 {
        (b + 32) as u8
    } else {
        b
    }
}

/// Where the last component of a path ends, looking at its first `end`
/// bytes: separators at the end are left aside, and so is a component that
/// is a single dot.
pub open spec fn name_end(path: Seq<u8>, end: int) -> int
    decreases end,
{
    if end >= 1 && path[end - 1] == '/' as u8 {
        name_end(path, end - 1)
    } else if end >= 2 && path[end - 1] == '.' as u8 && path[end - 2] == '/' as u8 {
        name_end(path, end - 2)
    } else {
        end
    }
}

/// The path up to the end of its last component: `a.png/`, `a.png//.` and
/// `a.png/./` all name `a.png`.
pub open spec fn trimmed(path: Seq<u8>) -> Seq<u8> {
    path.take(name_end(path, path.len() as int))
}

/// The path ends in a dot and `ext`, capital or small letters alike, and the
/// dot does not begin the file name. For an `ext` free of dots and slashes
/// and a path that ends with its last component, this says that `ext` is
/// the extension of that component.
pub open spec fn ends_with_extension(path: Seq<u8>, ext: Seq<u8>) -> bool {
    let dot = path.len() - ext.len() - 1;
    &&& dot >= 1
    &&& path[dot] == '.' as u8
    &&& path[dot - 1] != '/' as u8
    &&& forall|j: int| 0 <= j < ext.len() ==> lower(#[trigger] path[dot + 1 + j]) == ext[j]
}

/// The path names an image file, going by the extension of its last
/// component: one of tga, bmp, pnm, gif, jpg, jpeg, tif, tiff, png and webp.
pub open spec fn image_path(path: Seq<u8>) -> bool {
    let name = trimmed(path);
    ||| ends_with_extension(name, seq!['t' as u8, 'g' as u8, 'a' as u8])
    ||| ends_with_extension(name, seq!['b' as u8, 'm' as u8, 'p' as u8])
    ||| ends_with_extension(name, seq!['p' as u8, 'n' as u8, 'm' as u8])
    ||| ends_with_extension(name, seq!['g' as u8, 'i' as u8, 'f' as u8])
    ||| ends_with_extension(name, seq!['j' as u8, 'p' as u8, 'g' as u8])
    ||| ends_with_extension(name, seq!['j' as u8, 'p' as u8, 'e' as u8, 'g' as u8])
    ||| ends_with_extension(name, seq!['t' as u8, 'i' as u8, 'f' as u8])
    ||| ends_with_extension(name, seq!['t' as u8, 'i' as u8, 'f' as u8, 'f' as u8])
    ||| ends_with_extension(name, seq!['p' as u8, 'n' as u8, 'g' as u8])
    ||| ends_with_extension(name, seq!['w' as u8, 'e' as u8, 'b' as u8, 'p' as u8])
}

/// `a` comes before `b` in the order of the bytes, a proper prefix before
/// what it is a prefix of.
pub open spec fn lex_lt(a: Seq<u8>, b: Seq<u8>) -> bool
    decreases a.len(),
{
    if b.len() == 0 {
        false
    } else if a.len() == 0 {
        true
    } else if a[0] != b[0] {
        a[0] < b[0]
    } else {
        lex_lt(a.skip(1), b.skip(1))
    }
}

/// No path comes before itself.
pub proof fn lemma_lex_irreflexive(a: Seq<u8>)
    ensures
        !lex_lt(a, a),
    decreases a.len(),
{
    if a.len() > 0 {
        lemma_lex_irreflexive(a.skip(1));
    }
}

/// The order of paths is transitive.
pub proof fn lemma_lex_transitive(a: Seq<u8>, b: Seq<u8>, c: Seq<u8>)
    requires
        lex_lt(a, b),
        lex_lt(b, c),
    ensures
        lex_lt(a, c),
    decreases a.len(),
{
    if a.len() > 0 && a[0] == b[0] && b[0] == c[0] {
        lemma_lex_transitive(a.skip(1), b.skip(1), c.skip(1));
    }
}

/// Of two different paths one comes before the other.
pub proof fn lemma_lex_total(a: Seq<u8>, b: Seq<u8>)
    ensures
        a == b || lex_lt(a, b) || lex_lt(b, a),
    decreases a.len(),
{
    if a.len() > 0 && b.len() > 0 && a[0] == b[0] {
        lemma_lex_total(a.skip(1), b.skip(1));
        if a.skip(1) == b.skip(1) {
            assert(a =~= seq![a[0]] + a.skip(1));
            assert(b =~= seq![b[0]] + b.skip(1));
        }
    } else if a.len() == 0 && b.len() == 0 {
        assert(a =~= b);
    }
}

/// Two paths with a common beginning are ordered as what follows it.
proof fn lemma_lex_skip(a: Seq<u8>, b: Seq<u8>, i: int)
    requires
        0 <= i <= a.len(),
        i <= b.len(),
        forall|j: int| 0 <= j < i ==> a[j] == b[j],
    ensures
        lex_lt(a, b) == lex_lt(a.skip(i), b.skip(i)),
    decreases i,
{
    if i > 0 {
        lemma_lex_skip(a, b, i - 1);
        assert(a.skip(i - 1).skip(1) =~= a.skip(i));
        assert(b.skip(i - 1).skip(1) =~= b.skip(i));
    } else {
        assert(a.skip(0) =~= a);
        assert(b.skip(0) =~= b);
    }
}

/// Compares two paths byte by byte.
pub fn order(a: &[u8], b: &[u8]) -> (r: Order)
    ensures
        r == Order::Before <==> lex_lt(a@, b@),
        r == Order::Same <==> a@ == b@,
        r == Order::After <==> lex_lt(b@, a@),
{
    let mut i: usize = 0;
    while i < a.len() && i < b.len()
        invariant
            i <= a.len(),
            i <= b.len(),
            forall|j: int| 0 <= j < i ==> a@[j] == b@[j],
        decreases a.len() - i,
    {
        if a[i] != b[i] {
            proof {
                lemma_lex_skip(a@, b@, i as int);
                lemma_lex_skip(b@, a@, i as int);
            }
            return if a[i] < b[i] {
                Order::Before
            } else {
                Order::After
            };
        }
        i = i + 1;
    }
    proof {
        lemma_lex_skip(a@, b@, i as int);
        lemma_lex_skip(b@, a@, i as int);
        lemma_lex_irreflexive(a@);
        if a.len() == b.len() {
            assert(a@ =~= b@);
        }
    }
    if a.len() < b.len() {
        Order::Before
    } else if a.len() > b.len() {
        Order::After
    } else {
        Order::Same
    }
}

/// Where the last component of the path ends.
fn end_of_name(path: &[u8]) -> (end: usize)
    ensures
        end == name_end(path@, path@.len() as int),
        end <= path@.len(),
{
    let mut end: usize = path.len();
    while end > 0
        invariant
            end <= path@.len(),
            name_end(path@, path@.len() as int) == name_end(path@, end as int),
        ensures
            end <= path@.len(),
            name_end(path@, path@.len() as int) == end,
        decreases end,
    {
        if path[end - 1] == '/' as u8 {
            end = end - 1;
        } else if end >= 2 && path[end - 1] == '.' as u8 && path[end - 2] == '/' as u8 {
            end = end - 2;
        } else {
            break ;
        }
    }
    end
}

/// Whether the first `end` bytes of the path end in a dot and the given
/// extension, which is an extension in small letters.
fn has_extension<const N: usize>(path: &[u8], end: usize, ext: &[u8; N]) -> (r: bool)
    requires
        end <= path@.len(),
    ensures
        r == ends_with_extension(path@.take(end as int), ext@),
{
    if end < N || end - N < 2 {
        return false;
    }
    let ghost name = path@.take(end as int);
    let dot: usize = end - N - 1;
    assert(name[dot as int] == path@[dot as int] && name[dot - 1] == path@[dot - 1]);
    if path[dot] != '.' as u8 || path[dot - 1] == '/' as u8 {
        return false;
    }
    let mut j: usize = 0;
    while j < N
        invariant
            j <= N,
            N == ext@.len(),
            dot + 1 + N == end,
            end <= path@.len(),
            name == path@.take(end as int),
            forall|k: int| 0 <= k < j ==> lower(#[trigger] name[dot + 1 + k]) == ext@[k],
        decreases N - j,
    {
        let b: u8 = path[dot + 1 + j];
        assert(b == name[dot + 1 + j]);
        let small: u8 = if 'A' as u8 <= b && b <= 'Z' as u8 {
            b + 32
        } else {
            b
        };
        if small != ext[j] {
            return false;
        }
        j = j + 1;
    }
    true
}

/// Check if a path is an image path (based on extension).
pub fn is_image_path(path: &[u8]) -> (r: bool)
    ensures
        r == image_path(path@),
{
    let tga: [u8; 3] = ['t' as u8, 'g' as u8, 'a' as u8];
    let bmp: [u8; 3] = ['b' as u8, 'm' as u8, 'p' as u8];
    let pnm: [u8; 3] = ['p' as u8, 'n' as u8, 'm' as u8];
    let gif: [u8; 3] = ['g' as u8, 'i' as u8, 'f' as u8];
    let jpg: [u8; 3] = ['j' as u8, 'p' as u8, 'g' as u8];
    let jpeg: [u8; 4] = ['j' as u8, 'p' as u8, 'e' as u8, 'g' as u8];
    let tif: [u8; 3] = ['t' as u8, 'i' as u8, 'f' as u8];
    let tiff: [u8; 4] = ['t' as u8, 'i' as u8, 'f' as u8, 'f' as u8];
    let png: [u8; 3] = ['p' as u8, 'n' as u8, 'g' as u8];
    let webp: [u8; 4] = ['w' as u8, 'e' as u8, 'b' as u8, 'p' as u8];
    proof {
        assert(tga@ =~= seq!['t' as u8, 'g' as u8, 'a' as u8]);
        assert(bmp@ =~= seq!['b' as u8, 'm' as u8, 'p' as u8]);
        assert(pnm@ =~= seq!['p' as u8, 'n' as u8, 'm' as u8]);
        assert(gif@ =~= seq!['g' as u8, 'i' as u8, 'f' as u8]);
        assert(jpg@ =~= seq!['j' as u8, 'p' as u8, 'g' as u8]);
        assert(jpeg@ =~= seq!['j' as u8, 'p' as u8, 'e' as u8, 'g' as u8]);
        assert(tif@ =~= seq!['t' as u8, 'i' as u8, 'f' as u8]);
        assert(tiff@ =~= seq!['t' as u8, 'i' as u8, 'f' as u8, 'f' as u8]);
        assert(png@ =~= seq!['p' as u8, 'n' as u8, 'g' as u8]);
        assert(webp@ =~= seq!['w' as u8, 'e' as u8, 'b' as u8, 'p' as u8]);
    }
    let end = end_of_name(path);
    has_extension(path, end, &tga) || has_extension(path, end, &bmp) || has_extension(
        path,
        end,
        &pnm,
    ) || has_extension(path, end, &gif) || has_extension(path, end, &jpg) || has_extension(
        path,
        end,
        &jpeg,
    ) || has_extension(path, end, &tif) || has_extension(path, end, &tiff) || has_extension(
        path,
        end,
        &png,
    ) || has_extension(path, end, &webp)
}

} // verus!
