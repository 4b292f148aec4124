//! Filtering a list by a pipeline run on each of its items, with the default functions.
use vstd::prelude::*;
use crate::err::{ea_str, Error};
use crate::eval::data_agrees;
use crate::func_man::FuncManager;
use crate::funcs::registry::{builtin_s, default_func_man, default_names, default_table};
use crate::grammar::pipe_s;
use crate::parse::read_pipeline;
use crate::pipeline::VPipe;
use crate::scope::{scope_new, Scope, MAX_DEPTH};
use crate::semantics::{no_temps, sem_pipe};
use crate::show::v_display;
use crate::tdata::{clone_data, data_v, datas_v, lemma_datas_v_index, lemma_datas_v_len, lemma_datas_v_map, v_as_bool, TData, VData};
use crate::temp_man::{NoTemplates, TempManager};

verus! {

/// The default functions (those of [`default_func_man`]) as a function manager of its own.
pub struct DefaultFuncs {}

impl FuncManager for DefaultFuncs {
    open spec fn spec_checked(&self) -> bool {
        true
    }

    open spec fn spec_call(&self, k: Seq<char>, args: Seq<VData>) -> Option<Result<VData, ()>> {
        if default_names().contains(k) {
            builtin_s(k, args)
        } else {
            None
        }
    }

    fn call_func(&self, k: &str, args: &[TData]) -> (r: Option<Result<TData, Error>>) {
        let fm = default_func_man();
        fm.call_func(k, args)
    }

    /// The default functions' names, in order, each with its description.
    fn descriptions(&self) -> (r: Vec<(String, String)>)
        ensures
            r@.map_values(|e: (String, String)| e.0@) == default_names(),
            r@.map_values(|e: (String, String)| (e.0@, e.1@)) == default_table(),
    {
        default_func_man().descriptions()
    }
}

/// Whether an item is kept: the pipeline, run with the item as the only parameter, gives a
/// value that is true.
pub open spec fn keeps(p: VPipe, v: VData) -> bool {
    match sem_pipe(DefaultFuncs {}, no_temps(), MAX_DEPTH as nat, p, scope_new(seq![v], MAX_DEPTH as nat)) {
        Ok(b) => v_as_bool(b) == Some(true),
        Err(()) => false,
    }
}

/// The items that are kept, in order.
pub open spec fn kept(p: VPipe, l: Seq<VData>) -> Seq<VData>
    decreases l.len(),
{
    if l.len() == 0 {
        seq![]
    } else if keeps(p, l.last()) {
        kept(p, l.drop_last()).push(l.last())
    } else {
        kept(p, l.drop_last())
    }
}

/// `filter`: the items of the first argument for which the pipeline in the second argument's
/// text gives a true value.
pub open spec fn filter_s(a: Seq<VData>) -> Result<VData, ()> {
    if a.len() < 2 {
        Err(())
    } else {
        match pipe_s(v_display(a[1]), 0) {
            None => Err(()),
            Some((p, _)) => match a[0] {
                VData::List(l) => Ok(VData::List(kept(p, l))),
                _ => Err(()),
            },
        }
    }
}

/// The items of the first argument for which the pipeline written in the second argument
/// gives a true value, run with the item as its only parameter and the default functions.
pub fn filter(args: &[TData]) -> (r: Result<TData, Error>)
    ensures
        data_agrees(r, filter_s(datas_v(args@))),
{
    proof { lemma_datas_v_len(args@); }
    if args.len() < 2 {
        return Err(ea_str("Filter requires List and PipeString"));
    }
    proof {
        lemma_datas_v_index(args@, 0);
        lemma_datas_v_index(args@, 1);
    }
    let text = args[1].to_string();
    let pp = match read_pipeline(text.as_str()) {
        Some(p) => p,
        None => { return Err(ea_str("Filter could not read the pipeline")); },
    };
    let fm = DefaultFuncs {};
    match &args[0] {
        TData::List(ls) => {
            let ghost lv = datas_v(ls@);
            proof { lemma_datas_v_len(ls@); }
            let mut out: Vec<TData> = Vec::new();
            assert(datas_v(out@) =~= Seq::<VData>::empty());
            let mut i: usize = 0;
            while i < ls.len()
                invariant
                    i <= ls.len(),
                    lv == datas_v(ls@),
                    lv.len() == ls.len(),
                    datas_v(out@) == kept(pp@, lv.take(i as int)),
                decreases ls.len() - i,
            {
                proof { lemma_datas_v_index(ls@, i as int); }
                assert(lv.take(i + 1).drop_last() == lv.take(i as int));
                assert(lv.take(i + 1).last() == lv[i as int]);
                let item = clone_data(&ls[i]);
                let params = vec![clone_data(&ls[i])];
                let scope = Scope::new(params.as_slice());
                proof {
                    lemma_datas_v_map(params@);
                    assert(datas_v(params@) =~= seq![lv[i as int]]);
                }
                let mut tm = NoTemplates;
                let res = pp.run(&scope, &mut tm, &fm);
                assert(tm.spec_temps() == no_temps());
                let keep = match res {
                    Ok(b) => match b.as_bool() {
                        Some(true) => true,
                        _ => false,
                    },
                    Err(_) => false,
                };
                if keep {
                    proof { crate::tdata::lemma_datas_v_push(out@, item); }
                    out.push(item);
                }
                i = i + 1;
            }
            assert(lv.take(ls.len() as int) == lv);
            Ok(TData::List(out))
        },
        _ => Err(ea_str("Filter requires List and PipeString")),
    }
}

} // verus!
