use vstd::prelude::*;

verus! {

/// What the chart export produces and where. Paths are held as text.
#[derive(Debug, Clone)]
pub struct VisualizationOptions {
    pub generate_charts: bool,
    pub chart_dir: String,
    pub html_output: Option<String>,
}

/// The files a chart export wrote.
#[derive(Debug, Clone, Default)]
pub struct VisualizationArtifacts {
    pub generated_images: Vec<String>,
    pub html_output: Option<String>,
}

impl VisualizationOptions {
    /// Charts are drawn when they are asked for, and for an HTML report.
    pub fn wants_charts(&self) -> (res: bool)
        ensures
            res == (self.generate_charts || self.html_output is Some),
    {
        self.generate_charts || self.html_output.is_some()
    }
}

} // verus!
