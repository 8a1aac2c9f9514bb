//! Vocabulary and layout rules of the Matrix Market exchange format: the
//! keywords of a header line, the position each value of a file stands for,
//! and the row pointers of compressed row storage.

use vstd::prelude::*;

verus! {

/// How the entries of a matrix are laid out in a file.
#[derive(Debug, Clone, Copy, PartialEq, Eq, Structural)]
pub enum Storage {
    Dense,
    Sparse,
}

impl Storage {
    /// The keyword that names this layout in a header line.
    pub fn stringfy(self) -> (s: String)
        ensures
            self is Dense ==> s@ == "array"@,
            self is Sparse ==> s@ == "coordinate"@,
    {
        match self {
            Storage::Dense => "array".to_owned(),
            Storage::Sparse => "coordinate".to_owned(),
        }
    }
}

/// The symmetry class declared for a matrix.
#[derive(Debug, Clone, Copy, PartialEq, Eq, Structural)]
pub enum Qualifier {
    General,
    Symmetric,
    SkewSymmetric,
    Hermitian,
}

/// The symmetry class a header keyword names, if any.
pub open spec fn qualifier_named(word: Seq<char>) -> Option<Qualifier> {
    if word == "general"@ {
        Some(Qualifier::General)
    } else if word == "symmetric"@ {
        Some(Qualifier::Symmetric)
    } else if word == "skew-symmetric"@ {
        Some(Qualifier::SkewSymmetric)
    } else if word == "hermitian"@ {
        Some(Qualifier::Hermitian)
    } else {
        None
    }
}

impl Qualifier {
    /// The keyword that names this symmetry class when a header is written.
    pub fn stringfy(self) -> (s: String)
        ensures
            self is General ==> s@ == "general"@,
            self is Symmetric ==> s@ == "symmetric"@,
            self is SkewSymmetric ==> s@ == "skewsymmetric"@,
            self is Hermitian ==> s@ == "hermitian"@,
    {
        match self {
            Qualifier::General => "general".to_owned(),
            Qualifier::Symmetric => "symmetric".to_owned(),
            Qualifier::SkewSymmetric => "skewsymmetric".to_owned(),
            Qualifier::Hermitian => "hermitian".to_owned(),
        }
    }

    /// Recognizes the keyword of a symmetry class in a header that is read.
    pub fn recognize(word: &String) -> (r: Option<Qualifier>)
        ensures
            r == qualifier_named(word@),
    {
        if *word == "general".to_owned() {
            Some(Qualifier::General)
        } else if *word == "symmetric".to_owned() {
            Some(Qualifier::Symmetric)
        } else if *word == "skew-symmetric".to_owned() {
            Some(Qualifier::SkewSymmetric)
        } else if *word == "hermitian".to_owned() {
            Some(Qualifier::Hermitian)
        } else {
            None
        }
    }
}

/// The two body formats a file can announce.
#[derive(Debug, Clone, Copy, PartialEq, Eq, Structural)]
pub enum Format {
    Array,
    Coordinate,
}

/// The body format a header keyword names, if any.
pub open spec fn format_named(word: Seq<char>) -> Option<Format> {
    if word == "coordinate"@ {
        Some(Format::Coordinate)
    } else if word == "array"@ {
        Some(Format::Array)
    } else {
        None
    }
}

impl Format {
    /// Recognizes the keyword of a body format.
    pub fn recognize(word: &String) -> (r: Option<Format>)
        ensures
            r == format_named(word@),
    {
        if *word == "coordinate".to_owned() {
            Some(Format::Coordinate)
        } else if *word == "array".to_owned() {
            Some(Format::Array)
        } else {
            None
        }
    }

    /// The layout that goes with this body format.
    pub fn storage(self) -> (s: Storage)
        ensures
            self is Coordinate ==> s is Sparse,
            self is Array ==> s is Dense,
    {
        match self {
            Format::Coordinate => Storage::Sparse,
            Format::Array => Storage::Dense,
        }
    }
}

/// What the words of a header line announce for values of the type named
/// `kind`: the body format and the symmetry class, provided the line has
/// its five words, begins with the banner and the object `matrix`, and
/// names a known format, the expected type and a known symmetry class.
pub open spec fn header_of(words: Seq<Seq<char>>, kind: Seq<char>) -> Option<(Format, Qualifier)> {
    if words.len() >= 5 && words[0] == "%%MatrixMarket"@ && words[1] == "matrix"@ && words[3] == kind
        && format_named(words[2]) is Some && qualifier_named(words[4]) is Some {
        Some((format_named(words[2])->Some_0, qualifier_named(words[4])->Some_0))
    } else {
        None
    }
}

/// The words of a list of strings.
pub open spec fn texts(words: Seq<String>) -> Seq<Seq<char>> {
    Seq::new(words.len(), |i: int| words[i]@)
}

/// Reads the words of a header line for values of the type named `kind`.
pub fn read_header(words: &Vec<String>, kind: &String) -> (r: Option<(Format, Qualifier)>)
    ensures
        r == header_of(texts(words@), kind@),
{
    if words.len() < 5 {
        return None;
    }
    if words[0] != "%%MatrixMarket".to_owned() {
        return None;
    }
    if words[1] != "matrix".to_owned() {
        return None;
    }
    if words[3] != *kind {
        return None;
    }
    match Format::recognize(&words[2]) {
        None => None,
        Some(format) => match Qualifier::recognize(&words[4]) {
            None => None,
            Some(qual) => Some((format, qual)),
        },
    }
}

/// The position `(row, column)` of the `n`-th value of a dense matrix of
/// `height` rows that is stored in full, column by column. A matrix
/// without rows has no positions.
pub fn general_position(n: usize, height: usize) -> (p: Option<(usize, usize)>)
    ensures
        height == 0 ==> p is None,
        height > 0 ==> p == Some(((n % height) as usize, (n / height) as usize)),
{
    if height == 0 {
        return None;
    }
    let j = n / height;
    proof {
        assert(j * height <= n && n - j * height == n % height) by (nonlinear_arith)
            requires
                j == n / height,
                height > 0,
        ;
    }
    let i = n - j * height;
    Some((i, j))
}

/// The number of values that the first `c` columns of a packed triangle of
/// `height` rows hold: column `k` holds `height - k` of them.
pub open spec fn packed_before(height: int, c: int) -> int {
    c * (2 * height - c + 1) / 2
}

/// Column `c` of a packed triangle holds `height - c` values.
pub proof fn lemma_packed_column(height: int, c: int)
    ensures
        packed_before(height, c + 1) == packed_before(height, c) + (height - c),
{
    assert((c + 1) * (2 * height - (c + 1) + 1) == c * (2 * height - c + 1) + 2 * (height - c))
        by (nonlinear_arith);
}

/// The triangle of a matrix of `height` rows can be indexed: the size of
/// the matrix in full fits the machine.
pub open spec fn packable(height: int) -> bool {
    2 * height * height + height <= usize::MAX
}

/// The `n`-th value of a packed triangle lies in column `col` or is the
/// first of the column after it.
pub open spec fn packed_near(n: int, height: int, col: int) -> bool {
    &&& 0 <= col < height
    &&& packable(height)
    &&& packed_before(height, col) <= n < packed_before(height, col + 2)
}

/// The column of the `n`-th value of a packed triangle, given that the
/// value before it lies in column `col`.
pub open spec fn packed_column(n: int, height: int, col: int) -> int {
    if n >= packed_before(height, col + 1) {
        col + 1
    } else {
        col
    }
}

/// The position of the `n`-th value of a symmetric, skew-symmetric or
/// hermitian dense matrix, of which one triangle is stored column by
/// column, together with the column that value lies in. `col` is the
/// column of the value before it. The first component of the position is
/// the column, the second the column plus the offset of the value into it.
/// There is no position where the value lies in neither `col` nor the
/// column after it, or the matrix is too large to be indexed.
pub fn packed_position(n: usize, height: usize, col: usize) -> (r: Option<((usize, usize), usize)>)
    ensures
        r is Some <==> packed_near(n as int, height as int, col as int),
        r matches Some((p, next)) ==> {
            &&& next == packed_column(n as int, height as int, col as int)
            &&& p.0 == next
            &&& p.1 == next + n - packed_before(height as int, next as int)
            &&& p.1 < height
        },
{
    if col >= height {
        return None;
    }
    let fits = match height.checked_mul(height) {
        None => false,
        Some(square) => match square.checked_mul(2) {
            None => false,
            Some(twice) => twice.checked_add(height).is_some(),
        },
    };
    if !fits {
        proof {
            assert(2 * height * height == (height * height) * 2) by (nonlinear_arith);
        }
        return None;
    }
    proof {
        assert(2 * height * height == (height * height) * 2) by (nonlinear_arith);
        assert(2 * height <= 2 * height * height) by (nonlinear_arith)
            requires
                height >= 1,
        ;
        assert((2 * height - col + 1) * col == col * (2 * height - col + 1)) by (nonlinear_arith);
        assert((2 * height - col) * (col + 1) <= 2 * height * height + height && (2 * height - col)
            * (col + 1) >= 0) by (nonlinear_arith)
            requires
                col < height,
        ;
        assert((2 * height - col) * (col + 1) == (col + 1) * (2 * height - (col + 1) + 1))
            by (nonlinear_arith);
        lemma_packed_column(height as int, col as int);
        lemma_packed_column(height as int, col + 1);
    }
    let here = (2 * height - col + 1) * col / 2;
    let nelements = (2 * height - col) * (col + 1) / 2;
    // The column after `col` holds `height - col - 1` values.
    let beyond = nelements + (height - col - 1);
    if n < here || n >= beyond {
        return None;
    }
    let next = if n >= nelements {
        col + 1
    } else {
        col
    };
    let before = if n >= nelements {
        nelements
    } else {
        here
    };
    let offset = n - before;
    Some(((next, next + offset), next))
}

/// The position a pair of indices counted from one stands for, or nothing
/// where one of them is zero.
pub fn coordinate_position(row: usize, column: usize) -> (p: Option<(usize, usize)>)
    ensures
        row == 0 || column == 0 ==> p is None,
        row > 0 && column > 0 ==> p == Some(((row - 1) as usize, (column - 1) as usize)),
{
    if row == 0 || column == 0 {
        None
    } else {
        Some((row - 1, column - 1))
    }
}

/// The number of the first `n` entries of `rows` that are less than `r`.
pub open spec fn count_below(rows: Seq<usize>, r: int, n: nat) -> nat
    decreases n,
{
    if n == 0 {
        0
    } else {
        count_below(rows, r, (n - 1) as nat) + if rows[n - 1] < r {
            1nat
        } else {
            0nat
        }
    }
}

/// The rows are in ascending order, equal ones allowed.
pub open spec fn ascending(rows: Seq<usize>) -> bool {
    forall|i: int, j: int| 0 <= i <= j < rows.len() ==> rows[i] <= rows[j]
}

/// Where exactly the first `e` entries are below `r`, the number of
/// entries below `r` among the first `n` is the smaller of `n` and `e`.
pub proof fn lemma_count_below_prefix(rows: Seq<usize>, r: int, e: nat, n: nat)
    requires
        e <= rows.len(),
        n <= rows.len(),
        forall|k: int| 0 <= k < e ==> rows[k] < r,
        forall|k: int| e <= k < rows.len() ==> rows[k] >= r,
    ensures
        count_below(rows, r, n) == if n <= e {
            n
        } else {
            e
        },
    decreases n,
{
    if n > 0 {
        lemma_count_below_prefix(rows, r, e, (n - 1) as nat);
    }
}

/// Whether the rows are in ascending order.
pub fn is_ascending(rows: &Vec<usize>) -> (r: bool)
    ensures
        r == ascending(rows@),
{
    if rows.len() == 0 {
        return true;
    }
    let mut i: usize = 1;
    while i < rows.len()
        invariant
            1 <= i <= rows.len(),
            forall|a: int, b: int| 0 <= a <= b < i ==> rows[a] <= rows[b],
        decreases rows.len() - i,
    {
        if rows[i - 1] > rows[i] {
            return false;
        }
        i += 1;
    }
    true
}

/// The row pointers of compressed row storage for a matrix of `height`
/// rows whose entries lie in the rows `rows`: pointer `r` is the number of
/// entries in rows before `r`, and there is one pointer more than rows.
/// There are no pointers where the rows are not in ascending order, or
/// where one pointer more than rows is more than the machine can count.
pub fn row_pointers(height: usize, rows: &Vec<usize>) -> (r: Option<Vec<usize>>)
    ensures
        r is Some <==> ascending(rows@) && height < usize::MAX,
        r matches Some(indptr) ==> {
            &&& indptr.len() == height + 1
            &&& forall|k: int| 0 <= k <= height ==> #[trigger] indptr[k] == count_below(rows@, k, rows@.len())
        },
{
    if height == usize::MAX || !is_ascending(rows) {
        return None;
    }
    let mut indptr: Vec<usize> = Vec::new();
    let mut e: usize = 0;
    let mut r: usize = 0;
    while r <= height
        invariant
            r <= height + 1,
            height < usize::MAX,
            ascending(rows@),
            e <= rows.len(),
            indptr.len() == r,
            forall|k: int| 0 <= k < e ==> rows[k] < r,
            forall|k: int| 0 <= k < r ==> #[trigger] indptr[k] == count_below(rows@, k, rows@.len()),
        decreases height + 1 - r,
    {
        while e < rows.len() && rows[e] < r
            invariant
                e <= rows.len(),
                r <= height,
                forall|k: int| 0 <= k < e ==> rows[k] < r,
            decreases rows.len() - e,
        {
            e += 1;
        }
        proof {
            lemma_count_below_prefix(rows@, r as int, e as nat, rows@.len());
        }
        indptr.push(e);
        r += 1;
    }
    Some(indptr)
}

/// Whether a line of a file is a comment: it begins with a percent sign.
pub fn is_comment(line: &str) -> (r: bool)
    ensures
        r == (line@.len() > 0 && line@[0] == '%'),
{
    if line.unicode_len() == 0 {
        false
    } else {
        line.get_char(0) == '%'
    }
}

/// The entries that a stored entry at `(i, j)` stands for under a symmetry
/// class, each with its row, its column and whether its value is the
/// negative of the stored one. An entry on the diagonal and an entry of a
/// general matrix stand for themselves. An entry off the diagonal of a
/// symmetric or skew-symmetric matrix stands for itself and for its
/// mirror image, which has the negative value where the matrix is
/// skew-symmetric. An entry off the diagonal of a hermitian matrix cannot
/// be expanded.
pub open spec fn expansion_of(qual: Qualifier, i: usize, j: usize) -> Option<Seq<(usize, usize, bool)>> {
    if i == j {
        Some(seq![(i, j, false)])
    } else {
        match qual {
            Qualifier::General => Some(seq![(i, j, false)]),
            Qualifier::Symmetric => Some(seq![(i, j, false), (j, i, false)]),
            Qualifier::SkewSymmetric => Some(seq![(i, j, false), (j, i, true)]),
            Qualifier::Hermitian => None,
        }
    }
}

/// Expands a stored entry at `(i, j)` under a symmetry class.
pub fn expansion(qual: Qualifier, i: usize, j: usize) -> (r: Option<Vec<(usize, usize, bool)>>)
    ensures
        match r {
            Some(v) => expansion_of(qual, i, j) == Some(v@),
            None => expansion_of(qual, i, j) is None,
        },
{
    if i == j {
        let mut v: Vec<(usize, usize, bool)> = Vec::new();
        v.push((i, j, false));
        proof {
            assert(v@ =~= seq![(i, j, false)]);
        }
        return Some(v);
    }
    match qual {
        Qualifier::General => {
            let mut v: Vec<(usize, usize, bool)> = Vec::new();
            v.push((i, j, false));
            proof {
                assert(v@ =~= seq![(i, j, false)]);
            }
            Some(v)
        },
        Qualifier::Symmetric => {
            let mut v: Vec<(usize, usize, bool)> = Vec::new();
            v.push((i, j, false));
            v.push((j, i, false));
            proof {
                assert(v@ =~= seq![(i, j, false), (j, i, false)]);
            }
            Some(v)
        },
        Qualifier::SkewSymmetric => {
            let mut v: Vec<(usize, usize, bool)> = Vec::new();
            v.push((i, j, false));
            v.push((j, i, true));
            proof {
                assert(v@ =~= seq![(i, j, false), (j, i, true)]);
            }
            Some(v)
        },
        Qualifier::Hermitian => None,
    }
}

/// The positions of the first `n` values of a dense matrix of `height`
/// rows that is stored in full, column by column.
pub open spec fn general_positions(height: int, n: nat) -> Seq<(usize, usize)> {
    Seq::new(n, |k: int| ((k % height) as usize, (k / height) as usize))
}

/// The positions of the first `n` values of a packed triangle of `height`
/// rows and the column of the last of them, where all of them have a
/// position.
pub open spec fn packed_positions(height: int, n: nat) -> Option<(Seq<(usize, usize)>, int)>
    decreases n,
{
    if n == 0 {
        Some((Seq::empty(), 0))
    } else {
        match packed_positions(height, (n - 1) as nat) {
            None => None,
            Some((before, col)) => if packed_near(n - 1, height, col) {
                let c = packed_column(n - 1, height, col);
                Some((before.push((c as usize, (c + (n - 1) - packed_before(height, c)) as usize)), c))
            } else {
                None
            },
        }
    }
}

/// The positions that pairs of indices counted from one stand for, where
/// none of the indices is zero.
pub open spec fn coordinate_positions(pairs: Seq<(usize, usize)>) -> Option<Seq<(usize, usize)>> {
    if forall|k: int| 0 <= k < pairs.len() ==> (#[trigger] pairs[k]).0 > 0 && pairs[k].1 > 0 {
        Some(Seq::new(pairs.len(), |k: int| ((pairs[k].0 - 1) as usize, (pairs[k].1 - 1) as usize)))
    } else {
        None
    }
}

/// Where the values of a file stand in its matrix.
///
/// `header` holds the words of the header line, `kind` names the type of
/// values that is expected, `sizes` holds the numbers of the size line,
/// whose first is the number of rows, `n_values` is the number of lines
/// with a value, and `pairs` holds the two indices each of these lines
/// begins with where the format is the coordinate format. There is a
/// layout where the header announces a matrix of the expected type, the
/// size line has two numbers at least, and every value has a position: in
/// the coordinate format there is a pair for every value and no index is
/// zero; a matrix stored in full has a row; a packed triangle has room for
/// all values.
pub open spec fn layout_of(
    header: Seq<Seq<char>>,
    kind: Seq<char>,
    sizes: Seq<usize>,
    n_values: nat,
    pairs: Seq<(usize, usize)>,
) -> Option<Seq<(usize, usize)>> {
    match header_of(header, kind) {
        None => None,
        Some((format, qual)) => if sizes.len() < 2 {
            None
        } else {
            match format {
                Format::Coordinate => if pairs.len() == n_values {
                    coordinate_positions(pairs)
                } else {
                    None
                },
                Format::Array => match qual {
                    Qualifier::General => if sizes[0] == 0 && n_values > 0 {
                        None
                    } else {
                        Some(general_positions(sizes[0] as int, n_values))
                    },
                    _ => match packed_positions(sizes[0] as int, n_values) {
                        None => None,
                        Some((positions, _)) => Some(positions),
                    },
                },
            }
        },
    }
}

/// Works out where the values of a file stand in its matrix.
pub fn layout(
    header: &Vec<String>,
    kind: &String,
    sizes: &Vec<usize>,
    n_values: usize,
    pairs: &Vec<(usize, usize)>,
) -> (r: Option<Vec<(usize, usize)>>)
    ensures
        match r {
            Some(positions) => layout_of(texts(header@), kind@, sizes@, n_values as nat, pairs@) == Some(
                positions@,
            ),
            None => layout_of(texts(header@), kind@, sizes@, n_values as nat, pairs@) is None,
        },
{
    let (format, qual) = match read_header(header, kind) {
        None => {
            return None;
        },
        Some(announced) => announced,
    };
    if sizes.len() < 2 {
        return None;
    }
    let height = sizes[0];
    let mut positions: Vec<(usize, usize)> = Vec::new();
    match format {
        Format::Coordinate => {
            if pairs.len() != n_values {
                return None;
            }
            let mut k: usize = 0;
            while k < n_values
                invariant
                    k <= n_values,
                    format is Coordinate,
                    header_of(texts(header@), kind@) == Some((format, qual)),
                    sizes.len() >= 2,
                    height == sizes[0],
                    pairs.len() == n_values,
                    positions.len() == k,
                    forall|l: int| 0 <= l < k ==> (#[trigger] pairs[l]).0 > 0 && pairs[l].1 > 0,
                    forall|l: int|
                        0 <= l < k ==> #[trigger] positions[l] == (
                            (pairs[l].0 - 1) as usize,
                            (pairs[l].1 - 1) as usize,
                        ),
                decreases n_values - k,
            {
                match coordinate_position(pairs[k].0, pairs[k].1) {
                    None => {
                        return None;
                    },
                    Some(p) => {
                        positions.push(p);
                    },
                }
                k += 1;
            }
            proof {
                assert(positions@ =~= coordinate_positions(pairs@)->Some_0);
            }
            Some(positions)
        },
        Format::Array => match qual {
            Qualifier::General => {
                let mut k: usize = 0;
                while k < n_values
                    invariant
                        k <= n_values,
                        format is Array,
                        qual is General,
                        header_of(texts(header@), kind@) == Some((format, qual)),
                        sizes.len() >= 2,
                        height == sizes[0],
                        height > 0 || k == 0,
                        positions@ == general_positions(height as int, k as nat),
                    decreases n_values - k,
                {
                    match general_position(k, height) {
                        None => {
                            return None;
                        },
                        Some(p) => {
                            positions.push(p);
                        },
                    }
                    proof {
                        assert(positions@ =~= general_positions(height as int, (k + 1) as nat));
                    }
                    k += 1;
                }
                Some(positions)
            },
            _ => {
                let mut col: usize = 0;
                let mut k: usize = 0;
                while k < n_values
                    invariant
                        k <= n_values,
                        format is Array,
                        !(qual is General),
                        header_of(texts(header@), kind@) == Some((format, qual)),
                        sizes.len() >= 2,
                        height == sizes[0],

                        packed_positions(height as int, k as nat) == Some((positions@, col as int)),
                    decreases n_values - k,
                {
                    match packed_position(k, height, col) {
                        None => {
                            proof {
                                lemma_packed_positions_stop(height as int, (k + 1) as nat, n_values as nat);
                            }
                            return None;
                        },
                        Some((p, next)) => {
                            positions.push(p);
                            col = next;
                        },
                    }
                    k += 1;
                }
                Some(positions)
            },
        },
    }
}

/// Where the first `k` values of a packed triangle do not all have a
/// position, neither do the first `n >= k`.
pub proof fn lemma_packed_positions_stop(height: int, k: nat, n: nat)
    requires
        k <= n,
        packed_positions(height, k) is None,
    ensures
        packed_positions(height, n) is None,
    decreases n,
{
    if k < n {
        lemma_packed_positions_stop(height, k, (n - 1) as nat);
    }
}

} // verus!
