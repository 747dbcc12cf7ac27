//! The prompts that an agent is given.

use crate::chars;
use crate::knowledge::{Experience, ExperienceModel, Outcome};
use crate::text;
use vstd::prelude::*;

verus! {

/// Who the agent is.
pub const FRIDAY_SYSTEM_PROMPT: &'static str = "你是 Friday，一个面向软件开发人员的远程环境运行时故障诊断助手。\n\
\n\
## 身份\n\
- 你的名字是 Friday，不是 opencode，不是其他任何名字。\n\
- 当用户问\"你是谁\"时，回答你是 Friday。\n\
- 不要提及底层的模型名称（如 glm 等）或实现工具。\n\
\n\
## 能力\n\
- 帮助开发人员诊断远程环境中的运行时故障（OOM、CPU 飙高、连接池耗尽等）。\n\
- 已集成 JVM 诊断工具（jstat/jcmd 封装）：GC 统计、线程转储、堆信息、类直方图、堆转储等；arthas 动态诊断（watch/trace/jad 等）；日志分析等能力后续扩展。\n\
- 诚实告知能力边界：做不到的事情直接说，不要编造。\n\
\n\
## 风格\n\
- 简洁直接，不啰嗦。开发者要的是答案，不是寒暄。\n\
- 中文交流，技术术语可以保留英文。\n\
- 代码和命令用代码块包裹。\n\
- 长回答分段，用列表和标题组织结构。\n\
\n\
## 限制\n\
- 你不是通用聊天机器人。话题应围绕软件诊断、系统排查、开发效率。\n\
- 不做与诊断无关的事情（写诗、聊天、讲笑话等）。\n\
- 不确定的事情先说不确定，不要瞎猜。\n\
";

/// How the agent uses its tools.
pub const TOOL_GUIDANCE: &'static str = "## 工具使用\n\
- 调用诊断工具时，必须传入 session_id 参数。\n\
- 用 environment 参数指定目标环境（name 来自 list_environments）。\n\
- JVM 诊断流程：list_environments → list_processes（keyword=服务名）找 PID → ensure_tool 装备 JDK → 直接调用 jvm_* 结构化工具（jvm_gc_stats / jvm_thread_dump / jvm_heap_info / jvm_vm_info / jvm_class_histogram / jvm_heap_dump）。\n\
- 目标环境通常只有 JRE：跳过 ensure_tool 直接调 jvm_* 会报 jdk_not_provisioned，先装备再重试即可（幂等）。\n\
- run_command 是兜底：非 JVM 领域命令、jstat 其他视图（-gc/-gccapacity）等长尾场景才用它，每次执行需用户确认。\n\
- 文件传输：拉取/推送大文件（堆快照、日志包、工具包）必须用 file_download / file_upload 后台传输工具。启动后立即返回 transfer_id，轮询 transfer_status(transfer_id) 直到终态：completed（下载场景把 local_path 告知用户；堆快照会自动预热并可直接用 heap_* 工具分析）；failed（远端文件保留，file_download 同一文件可断点续传，不要放弃）；retrying（自动重试中，稍等再查，不要重复启动新任务）。不要用 run_command + cat/base64 拉大文件。\n\
- 堆快照分析（本机 MAT 引擎）：jvm_heap_dump 拉回完成后自动预热建索引，用 heap_open(local_path) 获取总览（预热命中秒回）→ heap_leak_suspects（泄漏嫌疑）/ heap_dominator_tree（支配树下钻）→ heap_path_to_gc_roots（引用链定责）→ heap_object_info / heap_references / heap_threads / heap_histogram 按需下钻；object_id 取自 heap_dominator_tree / heap_histogram / heap_references 的返回。全程自主完成根因分析，不要让用户手动开 MAT。分析结束调 heap_close 释放内存。\n\
- arthas 动态诊断（attach 到运行中的 JVM）：list_processes 找 PID → arthas_open(environment, pid)（首次自动下发 arthas 包并 attach，需确认；已 attach 秒回）→ arthas_* 工具诊断（dashboard / thread / sc / sm / jad / watch / trace / stack / monitor / tt / ognl / vmtool / memory / jvm / sysprop / vmoption / profiler 等；args 对象的字段与 arthas 命令参数一致）→ 完成后 arthas_close 或留给空闲自动回收。容器环境：先 k8s_find_pods 定位 Pod，arthas_open 与后续 arthas_* 诊断工具都带相同的 pod 参数。注意：堆快照走 jvm_heap_dump（不用 arthas 的 heapdump）；arthas_open 报「运行用户不一致且未录入凭证」时，引导用户在环境管理中为该环境添加对应 JVM 用户的凭证后重试；arthas_not_open 报「正在 attach」时稍候重试即可。\n\
- JFR 飞行记录（低开销全维度观测）：性能类问题（CPU 飙高、慢请求、GC 异常、锁竞争）优先 jfr_record(environment, pid, duration_secs) 热开启录制（目标 JDK 11+，profile 档开销 1~3%；调用立即返回 recording_id，长录制不会超时）→ 轮询 jfr_record_status(recording_id) 至终态：recording（进行中，稍候再查，勿重复启动）/ downloading（带 transfer_id，可轮询 transfer_status 看进度）/ completed（自动预热后用 jfr_quick_analysis(local_path) 一键诊断 / jfr_rules(local_path) 规则引擎）/ failed（看 error_code：pod_failed = 目标 Pod 已崩溃，重新 k8s_find_pods 定位新 Pod 后重录；transfer_failed = 远端文件保留，file_download 可断点续传重试；record_not_found = 落盘超时，可 file_download 手动拉回）→ 按维度下钻：jfr_gc_detail / jfr_hot_methods / jfr_thread_cpu / jfr_thread_contention / jfr_io_hotspots / jfr_memory_leaks / jfr_safepoints / jfr_stack_trace_search / jfr_correlate / jfr_request_waterfall；两次录制对比用 jfr_compare(baseline_local_path, target_local_path)。目标 JDK 8 不支持 JFR 热开启，改用 arthas_profiler。\n\
- 读源码（栈帧回源/业务逻辑确认）：先 code_get_repo(服务名) 查记忆的代码仓；有记忆 → 向用户确认仓地址仍对 + 确认本次部署的 ref（分支经常变，last_ref 仅作提示）；无记忆 → 问用户仓地址和 ref（分支/tag/commitid）。用户报 tag 时优先按 tag 对齐发布版本。然后 code_open_repo(repo_url, ref, service) → 轮询 code_repo_status 到 ready（cloning/fetching 稍候再查、勿重复 open；同 url+ref 幂等）→ code_read_file / code_search / code_list_files 读码：线程栈类名用 code_list_files(glob=\"**/类名.java\") 或 code_search(\"class 类名\") 定位，栈帧行号直接对 code_read_file 的行号。发现代码与部署不匹配（栈帧行号对不上、jad 反编译与源码不一致、搜不到预期符号）→ 问用户部署的 commitid（部署系统/镜像 label/META-INF/MANIFEST 的 Implementation-Build）重新 code_open_repo。stale_warning 要告知用户代码可能非最新；源码与部署版本可能不一致，可用 arthas jad 交叉验证。\n\
- 用户提到的环境先与 list_environments 的结果匹配；没有匹配时引导用户在右侧「环境」面板添加，不要瞎猜 host。";

/// The text of the override, where there is one that is not blank; else the default.
pub open spec fn system_prompt(override_text: Option<Seq<char>>) -> Seq<char> {
    if override_text is Some && !chars::is_blank(override_text->0) {
        override_text->0
    } else {
        FRIDAY_SYSTEM_PROMPT@
    }
}

/// The prompt up to what differs from kind to kind.
pub open spec fn preamble(override_text: Option<Seq<char>>, session_id: Seq<char>) -> Seq<char> {
    system_prompt(override_text) + "\n\n---\n\n"@ + TOOL_GUIDANCE@
        + "\n- 当前会话的 session_id："@ + session_id + "\n\n---\n\n"@
}

pub open spec fn plain_prompt(
    message: Seq<char>,
    override_text: Option<Seq<char>>,
    session_id: Seq<char>,
) -> Seq<char> {
    preamble(override_text, session_id) + "用户消息："@ + message
}

pub open spec fn history_prompt(
    message: Seq<char>,
    override_text: Option<Seq<char>>,
    session_id: Seq<char>,
    history: Seq<char>,
) -> Seq<char> {
    preamble(override_text, session_id)
        + "## 此前对话记录\n（底层 CLI 会话恢复失败，已开启新会话；以下记录来自 Friday 本地存储，请基于它继续对话。）\n\n"@
        + history + "\n\n---\n\n用户消息："@ + message
}

pub open spec fn outcome_label(o: Outcome) -> Seq<char> {
    match o {
        Outcome::Positive => "成功"@,
        Outcome::Negative => "未成功"@,
        Outcome::Uncertain => "不确定"@,
    }
}

/// What experience number `i` tells.
pub open spec fn experience_text(e: ExperienceModel, i: int) -> Seq<char> {
    let head = "### 经验 "@ + chars::dec((i + 1) as nat) + "（"@ + outcome_label(e.outcome)
        + "）："@ + e.service + " "@ + e.symptom + "\n"@;
    let symptom = "症状："@ + e.symptom + "\n"@;
    let cause = match e.root_cause {
        Some(c) => "根因："@ + c + "\n"@,
        None => Seq::empty(),
    };
    let path = "排查路径："@ + e.investigation_path + "\n"@;
    let lesson = if e.experience_lesson.len() > 0 {
        "经验："@ + e.experience_lesson + "\n"@
    } else {
        Seq::empty()
    };
    head + symptom + cause + path + lesson + "\n"@
}

pub open spec fn experiences_text(es: Seq<ExperienceModel>, n: int) -> Seq<char>
    decreases n,
{
    if n <= 0 {
        "## 历史经验参考\n"@
    } else {
        experiences_text(es, n - 1) + experience_text(es[n - 1], n - 1)
    }
}

pub open spec fn experiences_prompt(
    message: Seq<char>,
    override_text: Option<Seq<char>>,
    session_id: Seq<char>,
    es: Seq<ExperienceModel>,
) -> Seq<char> {
    if es.len() == 0 {
        plain_prompt(message, override_text, session_id)
    } else {
        preamble(override_text, session_id) + experiences_text(es, es.len() as int)
            + "\n---\n\n用户消息："@ + message
    }
}

/// The system prompt. `override_text` is what the file that replaces it holds,
/// where there is such a file.
pub fn build_system_prompt(override_text: Option<&str>) -> (r: String)
    ensures
        r@ == system_prompt(override_text.deep_view()),
{
    match override_text {
        Some(content) => {
            if !text::is_blank(content) {
                return text::owned(content);
            }
        },
        None => {},
    }
    text::owned(FRIDAY_SYSTEM_PROMPT)
}

fn build_preamble(override_text: Option<&str>, session_id: &str) -> (r: String)
    ensures
        r@ == preamble(override_text.deep_view(), session_id@),
{
    let mut out = build_system_prompt(override_text);
    out.append("\n\n---\n\n");
    out.append(TOOL_GUIDANCE);
    out.append("\n- 当前会话的 session_id：");
    out.append(session_id);
    out.append("\n\n---\n\n");
    out
}

/// The prompt for a message of the user.
pub fn build_prompt(message: &str, override_text: Option<&str>, session_id: &str) -> (r: String)
    ensures
        r@ == plain_prompt(message@, override_text.deep_view(), session_id@),
{
    let mut out = build_preamble(override_text, session_id);
    out.append("用户消息：");
    out.append(message);
    out
}

/// The prompt for an agent that starts afresh in the middle of a conversation.
pub fn build_prompt_with_history(
    message: &str,
    override_text: Option<&str>,
    session_id: &str,
    history: &str,
) -> (r: String)
    ensures
        r@ == history_prompt(message@, override_text.deep_view(), session_id@, history@),
{
    let mut out = build_preamble(override_text, session_id);
    out.append(
        "## 此前对话记录\n（底层 CLI 会话恢复失败，已开启新会话；以下记录来自 Friday 本地存储，请基于它继续对话。）\n\n",
    );
    out.append(history);
    out.append("\n\n---\n\n用户消息：");
    out.append(message);
    out
}

fn append_experience(out: &mut String, e: &Experience, i: usize)
    requires
        i < usize::MAX,
    ensures
        final(out)@ == old(out)@ + experience_text(e@, i as int),
{
    let ghost before = out@;
    let ghost m = e@;
    out.append("### 经验 ");
    out.append(text::dec((i + 1) as u64).as_str());
    out.append("（");
    out.append(
        match e.outcome {
            Outcome::Positive => "成功",
            Outcome::Negative => "未成功",
            Outcome::Uncertain => "不确定",
        },
    );
    out.append("）：");
    out.append(e.service.as_str());
    out.append(" ");
    out.append(e.symptom.as_str());
    out.append("\n");
    let ghost head = "### 经验 "@ + chars::dec((i + 1) as nat) + "（"@ + outcome_label(m.outcome)
        + "）："@ + m.service + " "@ + m.symptom + "\n"@;
    assert(out@ =~= before + head);
    out.append("症状：");
    out.append(e.symptom.as_str());
    out.append("\n");
    let ghost symptom = "症状："@ + m.symptom + "\n"@;
    assert(out@ =~= before + (head + symptom));
    let ghost cause = match m.root_cause {
        Some(c) => "根因："@ + c + "\n"@,
        None => Seq::<char>::empty(),
    };
    match &e.root_cause {
        Some(c) => {
            out.append("根因：");
            out.append(c.as_str());
            out.append("\n");
        },
        None => {},
    }
    assert(out@ =~= before + (head + symptom + cause));
    out.append("排查路径：");
    out.append(e.investigation_path.as_str());
    out.append("\n");
    let ghost path = "排查路径："@ + m.investigation_path + "\n"@;
    assert(out@ =~= before + (head + symptom + cause + path));
    let ghost lesson = if m.experience_lesson.len() > 0 {
        "经验："@ + m.experience_lesson + "\n"@
    } else {
        Seq::<char>::empty()
    };
    if !e.experience_lesson.as_str().is_empty() {
        out.append("经验：");
        out.append(e.experience_lesson.as_str());
        out.append("\n");
    }
    assert(out@ =~= before + (head + symptom + cause + path + lesson));
    out.append("\n");
    assert(out@ =~= before + (head + symptom + cause + path + lesson + "\n"@));
}

/// The prompt for a message of the user, with what earlier diagnoses have taught.
pub fn build_prompt_with_experiences(
    message: &str,
    override_text: Option<&str>,
    session_id: &str,
    experiences: &[Experience],
) -> (r: String)
    ensures
        r@ == experiences_prompt(
            message@,
            override_text.deep_view(),
            session_id@,
            experiences@.map_values(|e: Experience| e@),
        ),
{
    if experiences.len() == 0 {
        return build_prompt(message, override_text, session_id);
    }
    let ghost es = experiences@.map_values(|e: Experience| e@);
    let mut section = text::owned("## 历史经验参考\n");
    let mut i: usize = 0;
    while i < experiences.len()
        invariant
            i <= experiences@.len(),
            es == experiences@.map_values(|e: Experience| e@),
            section@ == experiences_text(es, i as int),
        decreases experiences@.len() - i,
    {
        append_experience(&mut section, &experiences[i], i);
        i = i + 1;
    }
    let mut out = build_preamble(override_text, session_id);
    out.append(section.as_str());
    out.append("\n---\n\n用户消息：");
    out.append(message);
    out
}

} // verus!
