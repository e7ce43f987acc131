//! Importing pages into a project: when an import may start, which files of a
//! selection become pages, and in which order.
use vstd::prelude::*;
use crate::audit::{
    copy_candidate, is_supported_image, lemma_naturally_ordered_same, natural_paths,
    naturally_ordered, ordered_inputs, supported_inputs, InputCandidate,
};
use crate::protocol::{AppError, AppErrorCode, DialogFilter};

verus! {

/// The file types offered when pages are picked: PNG, JPEG and WebP images.
pub fn image_filters() -> (filters: Vec<DialogFilter>)
    ensures
        filters@.len() == 1,
        filters@[0].name@ == "Images"@,
        filters@[0].extensions@.len() == 4,
        filters@[0].extensions@[0]@ == "png"@,
        filters@[0].extensions@[1]@ == "jpg"@,
        filters@[0].extensions@[2]@ == "jpeg"@,
        filters@[0].extensions@[3]@ == "webp"@,
{
    let mut extensions: Vec<String> = Vec::new();
    extensions.push("png".to_owned());
    extensions.push("jpg".to_owned());
    extensions.push("jpeg".to_owned());
    extensions.push("webp".to_owned());
    let mut filters: Vec<DialogFilter> = Vec::new();
    filters.push(DialogFilter { name: "Images".to_owned(), extensions });
    filters
}

/// Pages cannot be imported while processing runs.
pub fn import_allowed(running_jobs: usize) -> (r: Result<(), AppError>)
    ensures
        running_jobs == 0 ==> r is Ok,
        running_jobs > 0 ==> (r matches Err(e) && e.code == AppErrorCode::Conflict && e.message@
            == "pages cannot be imported while processing is running"@),
{
    if running_jobs > 0 {
        return Err(
            AppError::new(
                AppErrorCode::Conflict,
                "pages cannot be imported while processing is running",
            ),
        );
    }
    Ok(())
}

/// The files of a selection that become pages: every picked file, or the
/// supported images found in a picked folder.
pub open spec fn import_selection(files: Seq<InputCandidate>, from_folder: bool) -> Seq<
    InputCandidate,
> {
    if from_folder {
        supported_inputs(files)
    } else {
        files
    }
}

/// The paths of the files to import as pages, in natural order of their file
/// names; an error when the selection holds no image to import.
#[verifier::loop_isolation(false)]
pub fn order_page_imports(files: &Vec<InputCandidate>, from_folder: bool) -> (r: Result<
    Vec<String>,
    AppError,
>)
    ensures
        import_selection(files@, from_folder).len() == 0 ==> (r matches Err(e) && e.code
            == AppErrorCode::InvalidRequest && e.message@
            == "no supported images were found in the selection"@),
        import_selection(files@, from_folder).len() > 0 ==> (r matches Ok(paths) && paths@.len()
            == import_selection(files@, from_folder).len() && paths@.len() == naturally_ordered(
            import_selection(files@, from_folder),
        ).len() && forall|k: int|
            0 <= k < paths@.len() ==> #[trigger] paths@[k]@ == naturally_ordered(
                import_selection(files@, from_folder),
            )[k].path@),
{
    let mut list: Vec<InputCandidate> = Vec::new();
    let mut i: usize = 0;
    while i < files.len()
        invariant
            i <= files@.len(),
            crate::audit::same_candidates(
                list@,
                if from_folder {
                    supported_inputs(files@.take(i as int))
                } else {
                    files@.take(i as int)
                },
            ),
        decreases files.len() - i,
    {
        proof {
            assert(files@.take(i + 1).drop_last() =~= files@.take(i as int));
            assert(files@.take(i + 1).last() == files@[i as int]);
            assert(files@.take(i + 1) =~= files@.take(i as int).push(files@[i as int]));
        }
        let keep = if from_folder {
            let ext = match &files[i].extension {
                Some(e) => Some(e.as_str()),
                None => None,
            };
            is_supported_image(ext)
        } else {
            true
        };
        if keep {
            list.push(copy_candidate(&files[i]));
        }
        i = i + 1;
    }
    proof {
        assert(files@.take(files@.len() as int) =~= files@);
    }
    if list.len() == 0 {
        return Err(
            AppError::new(
                AppErrorCode::InvalidRequest,
                "no supported images were found in the selection",
            ),
        );
    }
    let paths = natural_paths(&list);
    proof {
        lemma_naturally_ordered_same(list@, import_selection(files@, from_folder));
    }
    Ok(paths)
}

/// Pages imported from a folder come in the same order as the typesetting
/// audit reads the same files: both keep the supported images and sort them
/// naturally by file name.
pub proof fn lemma_import_matches_audit_order(files: Seq<InputCandidate>)
    ensures
        naturally_ordered(import_selection(files, true)) == ordered_inputs(files),
{
}

} // verus!
