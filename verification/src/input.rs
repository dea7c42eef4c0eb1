//! The input of the construction: the datasets and the distance matrix.
use vstd::prelude::*;

verus! {

/// The rows of a matrix, each as a sequence of its entries.
pub open spec fn matrix_rows<S>(matrix: Seq<Vec<S>>) -> Seq<Seq<S>> {
    Seq::new(matrix.len(), |i: int| matrix[i]@)
}

/// The labels of a dataset, each as a sequence of characters.
pub open spec fn label_texts(labels: Seq<String>) -> Seq<Seq<char>> {
    Seq::new(labels.len(), |i: int| labels[i]@)
}

/// The total number of labels of the first `count` datasets.
pub open spec fn labels_before(datasets: Seq<Dataset>, count: int) -> int
    decreases count,
{
    if count <= 0 {
        0
    } else {
        labels_before(datasets, count - 1) + datasets[count - 1].labels().len()
    }
}

/// The total number of labels of all the datasets.
pub open spec fn total_labels(datasets: Seq<Dataset>) -> int {
    labels_before(datasets, datasets.len() as int)
}

/// A dataset: a name, and one time label for each of its observations, in the
/// order of the rows of the distance matrix. A label is a date and time
/// (`2021-01-01T00:00:00Z` or `2021-01-01 00:00:00.000`) or a number of seconds
/// since the Unix epoch.
#[derive(Clone, Debug)]
pub struct Dataset {
    name: String,
    timelabels: Vec<String>,
}

impl Dataset {
    /// The name, as a sequence of characters.
    pub closed spec fn name(&self) -> Seq<char> {
        self.name@
    }

    /// The time labels, in order.
    pub closed spec fn labels(&self) -> Seq<String> {
        self.timelabels@
    }

    /// Creates a dataset with the given name and time labels.
    pub fn new(name: &str, timelabels: Vec<String>) -> (dataset: Self)
        ensures
            dataset.name() == name@,
            dataset.labels() == timelabels@,
    {
        Dataset { name: name.to_owned(), timelabels }
    }

    /// Returns the name of the dataset.
    pub fn get_name(&self) -> (name: &str)
        ensures
            name@ == self.name(),
    {
        self.name.as_str()
    }

    /// Returns the time labels of the dataset.
    pub fn get_timelabels(&self) -> (labels: &Vec<String>)
        ensures
            labels@ == self.labels(),
    {
        &self.timelabels
    }
}

/// All the input: a distance matrix, and the datasets whose observations are
/// its rows, dataset after dataset.
#[derive(Debug)]
pub struct InputData<S> {
    distancematrix: Vec<Vec<S>>,
    data: Vec<Dataset>,
}

impl<S> InputData<S> {
    /// The distance matrix.
    pub closed spec fn distance_matrix(&self) -> Vec<Vec<S>> {
        self.distancematrix
    }

    /// The distance matrix, row by row.
    pub open spec fn matrix(&self) -> Seq<Vec<S>> {
        self.distance_matrix()@
    }

    /// The datasets, in order.
    pub closed spec fn datasets(&self) -> Seq<Dataset> {
        self.data@
    }

    /// Puts a distance matrix and a list of datasets together. Nothing is
    /// asked of them here: a matrix that is not square, or datasets whose
    /// labels are not as many as its rows, are refused when the curves are
    /// built.
    pub fn from(dmatrix: Vec<Vec<S>>, datasets: Vec<Dataset>) -> (input: Self)
        ensures
            input.distance_matrix() == dmatrix,
            input.datasets() == datasets@,
    {
        InputData { distancematrix: dmatrix, data: datasets }
    }

    /// Returns the distance matrix.
    pub fn get_distance_matrix(&self) -> (matrix: &Vec<Vec<S>>)
        ensures
            *matrix == self.distance_matrix(),
    {
        &self.distancematrix
    }

    /// Returns the datasets.
    pub fn get_datasets(&self) -> (datasets: &Vec<Dataset>)
        ensures
            datasets@ == self.datasets(),
    {
        &self.data
    }
}

} // verus!
